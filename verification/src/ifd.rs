//! The materialized image file directory: named fields lowered from the
//! raw tag table, plus the preserved unknown tags.

use vstd::prelude::*;

use crate::error::TiffError;
use crate::geo::{geo_key_word, geo_num_keys, geo_ok, is_geo_key_value, GeoKeyDirectory};
use crate::tags::{
    spec_compression_from, spec_photometric_from, spec_planar_from, spec_predictor_from,
    spec_resolution_from, spec_sample_format_from, CompressionMethod, PhotometricInterpretation,
    PlanarConfiguration, Predictor, ResolutionUnit, SampleFormat, Tag,
};
use crate::value::{
    as_f64_bits_seq, as_string, as_u16, as_u16_seq, as_u32, as_u64, as_u64_seq, as_u8, as_u8_seq,
    f64_bits_elems, u16_elems, u64_elems, u8_elems, TagValue,
};

verus! {

/// The value of the last entry carrying the given tag, if any.
pub open spec fn found(tags: Seq<(Tag, TagValue)>, t: Tag) -> Option<TagValue>
    decreases tags.len(),
{
    if tags.len() == 0 {
        None
    } else if tags.last().0 == t {
        Some(tags.last().1)
    } else {
        found(tags.drop_last(), t)
    }
}

/// Find the value of the last entry carrying the given tag.
#[verifier::loop_isolation(false)]
fn find_tag<'a>(tags: &'a Vec<(Tag, TagValue)>, t: Tag) -> (r: Option<&'a TagValue>)
    ensures
        (r matches Some(v) ==> found(tags@, t) == Some(*v)),
        r is None <==> found(tags@, t) is None,
{
    let n = tags.len();
    proof {
        assert(tags@.take(n as int) =~= tags@);
    }
    let mut j: usize = n;
    while j > 0
        invariant
            j <= n,
            found(tags@, t) == found(tags@.take(j as int), t),
        decreases j,
    {
        j = j - 1;
        proof {
            assert(tags@.take(j + 1).drop_last() =~= tags@.take(j as int));
            assert(tags@.take(j + 1).last() == tags@[j as int]);
        }
        if tags[j].0 == t {
            return Some(&tags[j].1);
        }
    }
    proof {
        assert(tags@.take(0) =~= Seq::<(Tag, TagValue)>::empty());
    }
    None
}

/// Narrow a borrowed value to u16, as the owning conversion does.
fn conv_u16(v: &TagValue) -> (r: Result<u16, TiffError>)
    ensures
        r == match as_u16(*v) {
            Some(x) => Ok::<u16, TiffError>(x),
            None => Err::<u16, TiffError>(TiffError::ValueConversion),
        },
    decreases *v,
{
    match v {
        TagValue::Byte(x) => Ok(*x as u16),
        TagValue::Short(x) => Ok(*x),
        TagValue::Unsigned(x) => if *x <= u16::MAX as u32 {
            Ok(*x as u16)
        } else {
            Err(TiffError::ValueConversion)
        },
        TagValue::UnsignedBig(x) => if *x <= u16::MAX as u64 {
            Ok(*x as u16)
        } else {
            Err(TiffError::ValueConversion)
        },
        TagValue::List(xs) => {
            if xs.len() == 1 {
                conv_u16(&xs[0])
            } else {
                Err(TiffError::ValueConversion)
            }
        },
        _ => Err(TiffError::ValueConversion),
    }
}

/// Narrow a borrowed value to u32, as the owning conversion does.
fn conv_u32(v: &TagValue) -> (r: Result<u32, TiffError>)
    ensures
        r == match as_u32(*v) {
            Some(x) => Ok::<u32, TiffError>(x),
            None => Err::<u32, TiffError>(TiffError::ValueConversion),
        },
    decreases *v,
{
    match v {
        TagValue::Byte(x) => Ok(*x as u32),
        TagValue::Short(x) => Ok(*x as u32),
        TagValue::Unsigned(x) => Ok(*x),
        TagValue::UnsignedBig(x) => if *x <= u32::MAX as u64 {
            Ok(*x as u32)
        } else {
            Err(TiffError::ValueConversion)
        },
        TagValue::Ifd(x) => Ok(*x),
        TagValue::IfdBig(x) => if *x <= u32::MAX as u64 {
            Ok(*x as u32)
        } else {
            Err(TiffError::ValueConversion)
        },
        TagValue::List(xs) => {
            if xs.len() == 1 {
                conv_u32(&xs[0])
            } else {
                Err(TiffError::ValueConversion)
            }
        },
        _ => Err(TiffError::ValueConversion),
    }
}

/// Copy a borrowed string value out, as the owning conversion does.
fn conv_string(v: &TagValue) -> (r: Result<String, TiffError>)
    ensures
        (match as_string(*v) {
            Some(cs) => r matches Ok(s) && s@ == cs,
            None => r == Err::<String, TiffError>(TiffError::ValueConversion),
        }),
{
    match v {
        TagValue::Ascii(s) => Ok(s.clone()),
        _ => Err(TiffError::ValueConversion),
    }
}

/// The numerator and denominator of a borrowed rational value.
fn conv_rational(v: &TagValue) -> (r: Result<(u32, u32), TiffError>)
    ensures
        (match *v {
            TagValue::Rational(n, d) => r == Ok::<(u32, u32), TiffError>((n, d)),
            _ => r == Err::<(u32, u32), TiffError>(TiffError::Format(0)),
        }),
{
    match v {
        TagValue::Rational(n, d) => Ok((*n, *d)),
        _ => Err(TiffError::Format(0)),
    }
}

/// Convert a borrowed value to a vector of u8, as the owning conversion
/// does.
#[verifier::loop_isolation(false)]
fn conv_u8_vec(v: &TagValue) -> (r: Result<Vec<u8>, TiffError>)
    ensures
        (match as_u8_seq(*v) {
            Some(s) => r matches Ok(out) && out@ == s,
            None => r == Err::<Vec<u8>, TiffError>(TiffError::ValueConversion),
        }),
{
    match v {
        TagValue::List(xs) => {
            let mut out: Vec<u8> = Vec::new();
            let n = xs.len();
            proof {
                assert(xs@.skip(0) =~= xs@);
                match u8_elems(xs@) {
                    Some(rest) => {
                        assert(Seq::<u8>::empty() + rest =~= rest);
                    },
                    None => {},
                }
            }
            let mut i: usize = 0;
            while i < n
                invariant
                    i <= n,
                    (match u8_elems(xs@.skip(i as int)) {
                        Some(rest) => u8_elems(xs@) == Some(out@ + rest),
                        None => u8_elems(xs@) is None,
                    }),
                decreases n - i,
            {
                proof {
                    assert(xs@.skip(i as int).drop_first() =~= xs@.skip(i + 1));
                    assert(xs@.skip(i as int)[0] == xs@[i as int]);
                }
                match &xs[i] {
                    TagValue::Byte(x) => {
                        let ghost pre_out = out@;
                        out.push(*x);
                        proof {
                            match u8_elems(xs@.skip(i + 1)) {
                                Some(rest) => {
                                    assert(pre_out + (seq![*x] + rest) =~= out@ + rest);
                                },
                                None => {},
                            }
                        }
                    },
                    other => {
                        proof {
                            if !(xs@[i as int] matches TagValue::List(_)) {
                                assert(as_u8(xs@[i as int]) is None);
                            }
                        }
                        match conv_u8_elem(other) {
                            Ok(x) => {
                                let ghost pre_out = out@;
                                out.push(x);
                                proof {
                                    match u8_elems(xs@.skip(i + 1)) {
                                        Some(rest) => {
                                            assert(pre_out + (seq![x] + rest) =~= out@ + rest);
                                        },
                                        None => {},
                                    }
                                }
                            },
                            Err(e) => {
                                return Err(e);
                            },
                        }
                    },
                }
                i = i + 1;
            }
            proof {
                assert(xs@.skip(n as int) =~= Seq::<TagValue>::empty());
                match u8_elems(xs@) {
                    Some(s) => {
                        assert(out@ + Seq::<u8>::empty() =~= out@);
                    },
                    None => {},
                }
            }
            Ok(out)
        },
        TagValue::Byte(x) => Ok(vec![*x]),
        _ => Err(TiffError::ValueConversion),
    }
}

/// Narrow one borrowed element to u8.
fn conv_u8_elem(v: &TagValue) -> (r: Result<u8, TiffError>)
    ensures
        r == match as_u8(*v) {
            Some(x) => Ok::<u8, TiffError>(x),
            None => Err::<u8, TiffError>(TiffError::ValueConversion),
        },
    decreases *v,
{
    match v {
        TagValue::Byte(x) => Ok(*x),
        TagValue::List(xs) => {
            if xs.len() == 1 {
                conv_u8_elem(&xs[0])
            } else {
                Err(TiffError::ValueConversion)
            }
        },
        _ => Err(TiffError::ValueConversion),
    }
}

/// Convert a borrowed value to a vector of u16, as the owning conversion
/// does.
#[verifier::loop_isolation(false)]
fn conv_u16_vec(v: &TagValue) -> (r: Result<Vec<u16>, TiffError>)
    ensures
        (match as_u16_seq(*v) {
            Some(s) => r matches Ok(out) && out@ == s,
            None => r == Err::<Vec<u16>, TiffError>(TiffError::ValueConversion),
        }),
{
    match v {
        TagValue::List(xs) => {
            let mut out: Vec<u16> = Vec::new();
            let n = xs.len();
            proof {
                assert(xs@.skip(0) =~= xs@);
                match u16_elems(xs@) {
                    Some(rest) => {
                        assert(Seq::<u16>::empty() + rest =~= rest);
                    },
                    None => {},
                }
            }
            let mut i: usize = 0;
            while i < n
                invariant
                    i <= n,
                    (match u16_elems(xs@.skip(i as int)) {
                        Some(rest) => u16_elems(xs@) == Some(out@ + rest),
                        None => u16_elems(xs@) is None,
                    }),
                decreases n - i,
            {
                proof {
                    assert(xs@.skip(i as int).drop_first() =~= xs@.skip(i + 1));
                    assert(xs@.skip(i as int)[0] == xs@[i as int]);
                }
                match conv_u16(&xs[i]) {
                    Ok(x) => {
                        let ghost pre_out = out@;
                        out.push(x);
                        proof {
                            match u16_elems(xs@.skip(i + 1)) {
                                Some(rest) => {
                                    assert(pre_out + (seq![x] + rest) =~= out@ + rest);
                                },
                                None => {},
                            }
                        }
                    },
                    Err(e) => {
                        return Err(e);
                    },
                }
                i = i + 1;
            }
            proof {
                assert(xs@.skip(n as int) =~= Seq::<TagValue>::empty());
                match u16_elems(xs@) {
                    Some(s) => {
                        assert(out@ + Seq::<u16>::empty() =~= out@);
                    },
                    None => {},
                }
            }
            Ok(out)
        },
        TagValue::Byte(x) => Ok(vec![*x as u16]),
        TagValue::Short(x) => Ok(vec![*x]),
        _ => Err(TiffError::ValueConversion),
    }
}

/// Narrow one borrowed element to u64.
fn conv_u64_elem(v: &TagValue) -> (r: Result<u64, TiffError>)
    ensures
        r == match as_u64(*v) {
            Some(x) => Ok::<u64, TiffError>(x),
            None => Err::<u64, TiffError>(TiffError::ValueConversion),
        },
    decreases *v,
{
    match v {
        TagValue::Byte(x) => Ok(*x as u64),
        TagValue::Short(x) => Ok(*x as u64),
        TagValue::Unsigned(x) => Ok(*x as u64),
        TagValue::UnsignedBig(x) => Ok(*x),
        TagValue::Ifd(x) => Ok(*x as u64),
        TagValue::IfdBig(x) => Ok(*x),
        TagValue::List(xs) => {
            if xs.len() == 1 {
                conv_u64_elem(&xs[0])
            } else {
                Err(TiffError::ValueConversion)
            }
        },
        _ => Err(TiffError::ValueConversion),
    }
}

/// Convert a borrowed value to a vector of u64, as the owning conversion
/// does.
#[verifier::loop_isolation(false)]
fn conv_u64_vec(v: &TagValue) -> (r: Result<Vec<u64>, TiffError>)
    ensures
        (match as_u64_seq(*v) {
            Some(s) => r matches Ok(out) && out@ == s,
            None => r == Err::<Vec<u64>, TiffError>(TiffError::ValueConversion),
        }),
{
    match v {
        TagValue::List(xs) => {
            let mut out: Vec<u64> = Vec::new();
            let n = xs.len();
            proof {
                assert(xs@.skip(0) =~= xs@);
                match u64_elems(xs@) {
                    Some(rest) => {
                        assert(Seq::<u64>::empty() + rest =~= rest);
                    },
                    None => {},
                }
            }
            let mut i: usize = 0;
            while i < n
                invariant
                    i <= n,
                    (match u64_elems(xs@.skip(i as int)) {
                        Some(rest) => u64_elems(xs@) == Some(out@ + rest),
                        None => u64_elems(xs@) is None,
                    }),
                decreases n - i,
            {
                proof {
                    assert(xs@.skip(i as int).drop_first() =~= xs@.skip(i + 1));
                    assert(xs@.skip(i as int)[0] == xs@[i as int]);
                }
                match conv_u64_elem(&xs[i]) {
                    Ok(x) => {
                        let ghost pre_out = out@;
                        out.push(x);
                        proof {
                            match u64_elems(xs@.skip(i + 1)) {
                                Some(rest) => {
                                    assert(pre_out + (seq![x] + rest) =~= out@ + rest);
                                },
                                None => {},
                            }
                        }
                    },
                    Err(e) => {
                        return Err(e);
                    },
                }
                i = i + 1;
            }
            proof {
                assert(xs@.skip(n as int) =~= Seq::<TagValue>::empty());
                match u64_elems(xs@) {
                    Some(s) => {
                        assert(out@ + Seq::<u64>::empty() =~= out@);
                    },
                    None => {},
                }
            }
            Ok(out)
        },
        TagValue::Byte(x) => Ok(vec![*x as u64]),
        TagValue::Short(x) => Ok(vec![*x as u64]),
        TagValue::Unsigned(x) => Ok(vec![*x as u64]),
        TagValue::UnsignedBig(x) => Ok(vec![*x]),
        TagValue::Rational(n, d) => Ok(vec![*n as u64, *d as u64]),
        TagValue::RationalBig(n, d) => Ok(vec![*n, *d]),
        TagValue::Ifd(x) => Ok(vec![*x as u64]),
        TagValue::IfdBig(x) => Ok(vec![*x]),
        TagValue::Ascii(s) => {
            let n = s.as_str().unicode_len();
            let mut out: Vec<u64> = Vec::new();
            let mut i: usize = 0;
            while i < n
                invariant
                    n == s@.len(),
                    i <= n,
                    out@.len() == i,
                    forall|j: int| 0 <= j < i ==> out@[j] == s@[j] as u64,
                decreases n - i,
            {
                let c = s.as_str().get_char(i);
                out.push(c as u64);
                i = i + 1;
            }
            proof {
                assert(out@ =~= s@.map_values(|c: char| c as u64));
            }
            Ok(out)
        },
        _ => Err(TiffError::ValueConversion),
    }
}

/// Convert a borrowed value to a vector of 64-bit float bit patterns, as
/// the owning conversion does.
#[verifier::loop_isolation(false)]
fn conv_f64_bits_vec(v: &TagValue) -> (r: Result<Vec<u64>, TiffError>)
    ensures
        (match as_f64_bits_seq(*v) {
            Some(s) => r matches Ok(out) && out@ == s,
            None => r == Err::<Vec<u64>, TiffError>(TiffError::ValueConversion),
        }),
{
    match v {
        TagValue::List(xs) => {
            let mut out: Vec<u64> = Vec::new();
            let n = xs.len();
            proof {
                assert(xs@.skip(0) =~= xs@);
                match f64_bits_elems(xs@) {
                    Some(rest) => {
                        assert(Seq::<u64>::empty() + rest =~= rest);
                    },
                    None => {},
                }
            }
            let mut i: usize = 0;
            while i < n
                invariant
                    i <= n,
                    (match f64_bits_elems(xs@.skip(i as int)) {
                        Some(rest) => f64_bits_elems(xs@) == Some(out@ + rest),
                        None => f64_bits_elems(xs@) is None,
                    }),
                decreases n - i,
            {
                proof {
                    assert(xs@.skip(i as int).drop_first() =~= xs@.skip(i + 1));
                    assert(xs@.skip(i as int)[0] == xs@[i as int]);
                }
                match &xs[i] {
                    TagValue::Double(x) => {
                        let ghost pre_out = out@;
                        out.push(*x);
                        proof {
                            match f64_bits_elems(xs@.skip(i + 1)) {
                                Some(rest) => {
                                    assert(pre_out + (seq![*x] + rest) =~= out@ + rest);
                                },
                                None => {},
                            }
                        }
                    },
                    _ => {
                        return Err(TiffError::ValueConversion);
                    },
                }
                i = i + 1;
            }
            proof {
                assert(xs@.skip(n as int) =~= Seq::<TagValue>::empty());
                match f64_bits_elems(xs@) {
                    Some(s) => {
                        assert(out@ + Seq::<u64>::empty() =~= out@);
                    },
                    None => {},
                }
            }
            Ok(out)
        },
        TagValue::Double(x) => Ok(vec![*x]),
        _ => Err(TiffError::ValueConversion),
    }
}

/// Whether a tag is lowered into a named field of the directory.
pub open spec fn is_known_tag(t: Tag) -> bool {
    ||| t is NewSubfileType
    ||| t is ImageWidth
    ||| t is ImageLength
    ||| t is BitsPerSample
    ||| t is Compression
    ||| t is PhotometricInterpretation
    ||| t is DocumentName
    ||| t is ImageDescription
    ||| t is StripOffsets
    ||| t is Orientation
    ||| t is SamplesPerPixel
    ||| t is RowsPerStrip
    ||| t is StripByteCounts
    ||| t is MinSampleValue
    ||| t is MaxSampleValue
    ||| t is XResolution
    ||| t is YResolution
    ||| t is PlanarConfiguration
    ||| t is ResolutionUnit
    ||| t is Software
    ||| t is DateTime
    ||| t is Artist
    ||| t is HostComputer
    ||| t is Predictor
    ||| t is ColorMap
    ||| t is TileWidth
    ||| t is TileLength
    ||| t is TileOffsets
    ||| t is TileByteCounts
    ||| t is ExtraSamples
    ||| t is SampleFormat
    ||| t is JPEGTables
    ||| t is Copyright
    ||| t is GeoKeyDirectory
    ||| t is ModelPixelScale
    ||| t is ModelTiepoint
    ||| t is GeoAsciiParams
    ||| t is GeoDoubleParams
}

/// The entries whose tags are not lowered into named fields, in order.
pub open spec fn unknown_entries(tags: Seq<(Tag, TagValue)>) -> Seq<(Tag, TagValue)>
    decreases tags.len(),
{
    if tags.len() == 0 {
        Seq::empty()
    } else {
        let rest = unknown_entries(tags.drop_first());
        if is_known_tag(tags[0].0) {
            rest
        } else {
            seq![tags[0]] + rest
        }
    }
}

/// Whether an optional u32 field holds the conversion of the last entry
/// with the given tag.
pub open spec fn u32_field_is(tags: Seq<(Tag, TagValue)>, t: Tag, field: Option<u32>) -> bool {
    match found(tags, t) {
        Some(v) => field == as_u32(v),
        None => field is None,
    }
}

/// Whether an optional u16 field holds the conversion of the last entry
/// with the given tag.
pub open spec fn u16_field_is(tags: Seq<(Tag, TagValue)>, t: Tag, field: Option<u16>) -> bool {
    match found(tags, t) {
        Some(v) => field == as_u16(v),
        None => field is None,
    }
}

/// Whether an optional string field holds the conversion of the last
/// entry with the given tag.
pub open spec fn string_field_is(
    tags: Seq<(Tag, TagValue)>,
    t: Tag,
    field: Option<String>,
) -> bool {
    match found(tags, t) {
        Some(v) => field matches Some(s) && Some(s@) == as_string(v),
        None => field is None,
    }
}

/// Whether an optional vector-of-u16 field holds the conversion of the
/// last entry with the given tag.
pub open spec fn u16_vec_field_is(
    tags: Seq<(Tag, TagValue)>,
    t: Tag,
    field: Option<Vec<u16>>,
) -> bool {
    match found(tags, t) {
        Some(v) => field matches Some(out) && Some(out@) == as_u16_seq(v),
        None => field is None,
    }
}

/// Whether an optional vector-of-u64 field holds the conversion of the
/// last entry with the given tag.
pub open spec fn u64_vec_field_is(
    tags: Seq<(Tag, TagValue)>,
    t: Tag,
    field: Option<Vec<u64>>,
) -> bool {
    match found(tags, t) {
        Some(v) => field matches Some(out) && Some(out@) == as_u64_seq(v),
        None => field is None,
    }
}

/// Whether an optional vector-of-u8 field holds the conversion of the
/// last entry with the given tag.
pub open spec fn u8_vec_field_is(
    tags: Seq<(Tag, TagValue)>,
    t: Tag,
    field: Option<Vec<u8>>,
) -> bool {
    match found(tags, t) {
        Some(v) => field matches Some(out) && Some(out@) == as_u8_seq(v),
        None => field is None,
    }
}

/// Whether an optional vector of 64-bit float bit patterns holds the
/// conversion of the last entry with the given tag.
pub open spec fn f64_vec_field_is(
    tags: Seq<(Tag, TagValue)>,
    t: Tag,
    field: Option<Vec<u64>>,
) -> bool {
    match found(tags, t) {
        Some(v) => field matches Some(out) && Some(out@) == as_f64_bits_seq(v),
        None => field is None,
    }
}

/// Whether an optional rational field holds the numerator and denominator
/// of the last entry with the given tag.
pub open spec fn rational_field_is(
    tags: Seq<(Tag, TagValue)>,
    t: Tag,
    field: Option<(u32, u32)>,
) -> bool {
    match found(tags, t) {
        Some(v) => match v {
            TagValue::Rational(n, d) => field == Some((n, d)),
            _ => false,
        },
        None => field is None,
    }
}

/// The ASCII parameter block of the geo sub-directory, as the lowering
/// sees it.
pub open spec fn geo_ascii_of(tags: Seq<(Tag, TagValue)>) -> Option<Seq<char>> {
    match found(tags, Tag::GeoAsciiParams) {
        Some(v) => as_string(v),
        None => None,
    }
}

/// The double parameter block of the geo sub-directory, as the lowering
/// sees it.
pub open spec fn geo_doubles_of(tags: Seq<(Tag, TagValue)>) -> Option<Seq<u64>> {
    match found(tags, Tag::GeoDoubleParams) {
        Some(v) => as_f64_bits_seq(v),
        None => None,
    }
}

/// Whether the geo sub-directory field holds the parse of the four linked
/// geo tags.
pub open spec fn geo_field_is(tags: Seq<(Tag, TagValue)>, field: Option<GeoKeyDirectory>) -> bool {
    match found(tags, Tag::GeoKeyDirectory) {
        Some(v) => {
            let dir = as_u16_seq(v).unwrap();
            let av = geo_ascii_of(tags);
            let dv = geo_doubles_of(tags);
            &&& field matches Some(g)
            &&& field.unwrap().keys_view().len() == geo_num_keys(dir)
            &&& (forall|i: int|
                0 <= i < geo_num_keys(dir) ==> (
                #[trigger] field.unwrap().keys_view()[i]).0 == geo_key_word(dir, i, 0)
                    && is_geo_key_value(dir, av, dv, i, field.unwrap().keys_view()[i].1))
        },
        None => field is None,
    }
}

/// Whether the last entry with tag `t` exists and converts to u32.
pub open spec fn has_u32(tags: Seq<(Tag, TagValue)>, t: Tag) -> bool {
    found(tags, t) matches Some(v) && as_u32(v) is Some
}

/// Whether the last entry with tag `t` exists and converts to u16.
pub open spec fn has_u16(tags: Seq<(Tag, TagValue)>, t: Tag) -> bool {
    found(tags, t) matches Some(v) && as_u16(v) is Some
}

/// Whether the last entry with tag `t` exists and converts to a vector of
/// u16.
pub open spec fn has_u16_vec(tags: Seq<(Tag, TagValue)>, t: Tag) -> bool {
    found(tags, t) matches Some(v) && as_u16_seq(v) is Some
}

/// Whether the mandatory tags and the enumeration-typed tags of a raw
/// tag table convert.
pub open spec fn ok_core(tags: Seq<(Tag, TagValue)>) -> bool {
    &&& (found(tags, Tag::ImageWidth) matches Some(v) && as_u32(v) is Some)
    &&& (found(tags, Tag::ImageLength) matches Some(v) && as_u32(v) is Some)
    &&& (found(tags, Tag::BitsPerSample) matches Some(v) && as_u16_seq(v) is Some)
    &&& (found(tags, Tag::PhotometricInterpretation) matches Some(v) && as_u16(v) matches Some(c)
        && spec_photometric_from(c) is Some)
    &&& (found(tags, Tag::SamplesPerPixel) matches Some(v) && as_u16(v) is Some)
    &&& (found(tags, Tag::Compression) matches Some(v) ==> as_u16(v) is Some)
    &&& (found(tags, Tag::PlanarConfiguration) matches Some(v) ==> as_u16(v) is Some)
    &&& (found(tags, Tag::Predictor) matches Some(v) ==> as_u16(v) is Some)
    &&& (found(tags, Tag::ResolutionUnit) matches Some(v) ==> as_u16(v) is Some)
    &&& (found(tags, Tag::SampleFormat) matches Some(v) ==> as_u16_seq(v) is Some)
}

/// Whether the small optional tags of a raw tag table convert.
pub open spec fn ok_opts(tags: Seq<(Tag, TagValue)>) -> bool {
    &&& (found(tags, Tag::NewSubfileType) matches Some(v) ==> as_u32(v) is Some)
    &&& (found(tags, Tag::RowsPerStrip) matches Some(v) ==> as_u32(v) is Some)
    &&& (found(tags, Tag::TileWidth) matches Some(v) ==> as_u32(v) is Some)
    &&& (found(tags, Tag::TileLength) matches Some(v) ==> as_u32(v) is Some)
    &&& (found(tags, Tag::Orientation) matches Some(v) ==> as_u16(v) is Some)
    &&& (found(tags, Tag::DocumentName) matches Some(v) ==> as_string(v) is Some)
    &&& (found(tags, Tag::ImageDescription) matches Some(v) ==> as_string(v) is Some)
    &&& (found(tags, Tag::Software) matches Some(v) ==> as_string(v) is Some)
    &&& (found(tags, Tag::DateTime) matches Some(v) ==> as_string(v) is Some)
    &&& (found(tags, Tag::Artist) matches Some(v) ==> as_string(v) is Some)
    &&& (found(tags, Tag::HostComputer) matches Some(v) ==> as_string(v) is Some)
    &&& (found(tags, Tag::Copyright) matches Some(v) ==> as_string(v) is Some)
}

/// Whether the vector-valued and rational tags of a raw tag table
/// convert.
pub open spec fn ok_vecs(tags: Seq<(Tag, TagValue)>) -> bool {
    &&& (found(tags, Tag::StripOffsets) matches Some(v) ==> as_u64_seq(v) is Some)
    &&& (found(tags, Tag::StripByteCounts) matches Some(v) ==> as_u64_seq(v) is Some)
    &&& (found(tags, Tag::TileOffsets) matches Some(v) ==> as_u64_seq(v) is Some)
    &&& (found(tags, Tag::TileByteCounts) matches Some(v) ==> as_u64_seq(v) is Some)
    &&& (found(tags, Tag::MinSampleValue) matches Some(v) ==> as_u16_seq(v) is Some)
    &&& (found(tags, Tag::MaxSampleValue) matches Some(v) ==> as_u16_seq(v) is Some)
    &&& (found(tags, Tag::ColorMap) matches Some(v) ==> as_u16_seq(v) is Some)
    &&& (found(tags, Tag::ExtraSamples) matches Some(v) ==> as_u16_seq(v) is Some)
    &&& (found(tags, Tag::JPEGTables) matches Some(v) ==> as_u8_seq(v) is Some)
    &&& (found(tags, Tag::XResolution) matches Some(v) ==> v is Rational)
    &&& (found(tags, Tag::YResolution) matches Some(v) ==> v is Rational)
    &&& (found(tags, Tag::ModelPixelScale) matches Some(v) ==> as_f64_bits_seq(v) is Some)
    &&& (found(tags, Tag::ModelTiepoint) matches Some(v) ==> as_f64_bits_seq(v) is Some)
}

/// Whether the geo sub-directory tags of a raw tag table convert and the
/// directory parses.
pub open spec fn ok_geo(tags: Seq<(Tag, TagValue)>) -> bool {
    &&& (found(tags, Tag::GeoAsciiParams) matches Some(v) ==> as_string(v) is Some)
    &&& (found(tags, Tag::GeoDoubleParams) matches Some(v) ==> as_f64_bits_seq(v) is Some)
    &&& (found(tags, Tag::GeoKeyDirectory) matches Some(v) ==> as_u16_seq(v) matches Some(dir)
        && geo_ok(dir, geo_ascii_of(tags), geo_doubles_of(tags)))
}

/// Whether the lowering of a raw tag table succeeds: the mandatory tags
/// are present, every recognised tag converts to its field's type, and
/// the geo sub-directory, if present, parses.
pub open spec fn from_tags_ok(tags: Seq<(Tag, TagValue)>) -> bool {
    ok_core(tags) && ok_opts(tags) && ok_vecs(tags) && ok_geo(tags)
}

/// A materialized image file directory: the named fields a reader needs,
/// lowered from one IFD's tag table, with every other tag preserved.
///
/// Floating point tag data is carried as IEEE bit patterns, and the two
/// resolution tags as their raw numerator and denominator.
#[derive(Debug)]
pub struct ImageFileDirectory {
    /// The kind of subfile, from NewSubfileType.
    pub new_subfile_type: Option<u32>,
    /// The number of columns in the image.
    pub image_width: u32,
    /// The number of rows in the image.
    pub image_height: u32,
    /// The bit depth of each sample.
    pub bits_per_sample: Vec<u16>,
    /// The compression scheme of the image data.
    pub compression: CompressionMethod,
    /// The color space of the image data.
    pub photometric_interpretation: PhotometricInterpretation,
    /// The name of the document the image was scanned from.
    pub document_name: Option<String>,
    /// A description of the image.
    pub image_description: Option<String>,
    /// The byte offset of each strip.
    pub strip_offsets: Option<Vec<u64>>,
    /// The orientation of the image.
    pub orientation: Option<u16>,
    /// The number of components per pixel.
    pub samples_per_pixel: u16,
    /// The number of rows in each strip.
    pub rows_per_strip: Option<u32>,
    /// The length in bytes of each compressed strip.
    pub strip_byte_counts: Option<Vec<u64>>,
    /// The minimum sample value of each component.
    pub min_sample_value: Option<Vec<u16>>,
    /// The maximum sample value of each component.
    pub max_sample_value: Option<Vec<u16>>,
    /// Pixels per resolution unit across, as a raw rational.
    pub x_resolution: Option<(u32, u32)>,
    /// Pixels per resolution unit down, as a raw rational.
    pub y_resolution: Option<(u32, u32)>,
    /// Whether components are interleaved or stored in separate planes.
    pub planar_configuration: PlanarConfiguration,
    /// The unit of the resolution tags.
    pub resolution_unit: Option<ResolutionUnit>,
    /// The software that wrote the image.
    pub software: Option<String>,
    /// The creation date and time of the image.
    pub date_time: Option<String>,
    /// The artist who produced the image.
    pub artist: Option<String>,
    /// The computer the image was created on.
    pub host_computer: Option<String>,
    /// The predictor applied before compression.
    pub predictor: Option<Predictor>,
    /// The palette of a palette-color image.
    pub color_map: Option<Vec<u16>>,
    /// The width of each tile.
    pub tile_width: Option<u32>,
    /// The height of each tile.
    pub tile_height: Option<u32>,
    /// The byte offset of each tile.
    pub tile_offsets: Option<Vec<u64>>,
    /// The length in bytes of each compressed tile.
    pub tile_byte_counts: Option<Vec<u64>>,
    /// The meaning of any extra components.
    pub extra_samples: Option<Vec<u16>>,
    /// The numeric format of each component.
    pub sample_format: Vec<SampleFormat>,
    /// The shared JPEG tables of the file, if any.
    pub jpeg_tables: Option<Vec<u8>>,
    /// The copyright notice of the image.
    pub copyright: Option<String>,
    /// The parsed GeoTIFF key sub-directory, if present.
    pub geo_key_directory: Option<GeoKeyDirectory>,
    /// The pixel scale of a geo-referenced image, as IEEE bit patterns.
    pub model_pixel_scale: Option<Vec<u64>>,
    /// The tie points of a geo-referenced image, as IEEE bit patterns.
    pub model_tiepoint: Option<Vec<u64>>,
    /// Every tag not lowered into a named field, in file order.
    pub other_tags: Vec<(Tag, TagValue)>,
    /// The offset of the next IFD in the chain, if any.
    pub next_ifd_offset: Option<u64>,
}

/// Lower the mandatory and enumeration-typed tags.
#[verifier::loop_isolation(false)]
#[verifier::rlimit(60)]
fn lower_core(tags: &Vec<(Tag, TagValue)>) -> (r: Result<
    (
        u32,
        u32,
        Vec<u16>,
        PhotometricInterpretation,
        u16,
        CompressionMethod,
        PlanarConfiguration,
        Option<Predictor>,
        Option<ResolutionUnit>,
        Vec<SampleFormat>,
    ),
    TiffError,
>)
    ensures
        (r is Ok <==> ok_core(tags@)),
        found(tags@, Tag::ImageWidth) is None ==> (r matches Err(e) && e == TiffError::Format(256)),
        (has_u32(tags@, Tag::ImageWidth) && found(tags@, Tag::ImageLength) is None) ==> (r matches Err(e) && e == TiffError::Format(257)),
        (has_u32(tags@, Tag::ImageWidth) && has_u32(tags@, Tag::ImageLength) && found(
            tags@,
            Tag::BitsPerSample,
        ) is None) ==> (r matches Err(e) && e == TiffError::Format(258)),
        (has_u32(tags@, Tag::ImageWidth) && has_u32(tags@, Tag::ImageLength) && has_u16_vec(
            tags@,
            Tag::BitsPerSample,
        ) && (found(tags@, Tag::PhotometricInterpretation) is None || (as_u16(
            found(tags@, Tag::PhotometricInterpretation).unwrap(),
        ) matches Some(c) && spec_photometric_from(c) is None))) ==> (r matches Err(e) && e == TiffError::Format(262)),
        (has_u32(tags@, Tag::ImageWidth) && has_u32(tags@, Tag::ImageLength) && has_u16_vec(
            tags@,
            Tag::BitsPerSample,
        ) && has_u16(tags@, Tag::PhotometricInterpretation) && spec_photometric_from(
            as_u16(found(tags@, Tag::PhotometricInterpretation).unwrap()).unwrap(),
        ) is Some && found(tags@, Tag::SamplesPerPixel) is None) ==> (r matches Err(e) && e == TiffError::Format(277)),
        (r matches Ok(t) ==> {
            &&& Some(t.0) == as_u32(found(tags@, Tag::ImageWidth).unwrap())
            &&& Some(t.1) == as_u32(found(tags@, Tag::ImageLength).unwrap())
            &&& Some(t.2@) == as_u16_seq(found(tags@, Tag::BitsPerSample).unwrap())
            &&& Some(t.3) == spec_photometric_from(
                as_u16(found(tags@, Tag::PhotometricInterpretation).unwrap()).unwrap(),
            )
            &&& Some(t.4) == as_u16(found(tags@, Tag::SamplesPerPixel).unwrap())
            &&& t.5 == (match found(tags@, Tag::Compression) {
                Some(v) => spec_compression_from(as_u16(v).unwrap()),
                None => CompressionMethod::Uncompressed,
            })
            &&& t.6 == (match found(tags@, Tag::PlanarConfiguration) {
                Some(v) => match spec_planar_from(as_u16(v).unwrap()) {
                    Some(p) => p,
                    None => PlanarConfiguration::Chunky,
                },
                None => PlanarConfiguration::Chunky,
            })
            &&& t.7 == (match found(tags@, Tag::Predictor) {
                Some(v) => spec_predictor_from(as_u16(v).unwrap()),
                None => None,
            })
            &&& t.8 == (match found(tags@, Tag::ResolutionUnit) {
                Some(v) => spec_resolution_from(as_u16(v).unwrap()),
                None => None,
            })
            &&& (match found(tags@, Tag::SampleFormat) {
                Some(v) => t.9@ == as_u16_seq(v).unwrap().map_values(
                    |c: u16| spec_sample_format_from(c),
                ),
                None => t.9@ == Seq::new(t.4 as nat, |i: int| SampleFormat::Uint),
            })
        }),
{
    let image_width = match find_tag(&tags, Tag::ImageWidth) {
        Some(v) => match conv_u32(v) {
            Ok(x) => x,
            Err(e) => {
                return Err(e);
            },
        },
        None => {
            return Err(TiffError::Format(256));
        },
    };
    let image_height = match find_tag(&tags, Tag::ImageLength) {
        Some(v) => match conv_u32(v) {
            Ok(x) => x,
            Err(e) => {
                return Err(e);
            },
        },
        None => {
            return Err(TiffError::Format(257));
        },
    };
    let bits_per_sample = match find_tag(&tags, Tag::BitsPerSample) {
        Some(v) => match conv_u16_vec(v) {
            Ok(x) => x,
            Err(e) => {
                return Err(e);
            },
        },
        None => {
            return Err(TiffError::Format(258));
        },
    };
    let photometric_interpretation = match find_tag(&tags, Tag::PhotometricInterpretation) {
        Some(v) => match conv_u16(v) {
            Ok(c) => match PhotometricInterpretation::from_u16(c) {
                Some(p) => p,
                None => {
                    return Err(TiffError::Format(262));
                },
            },
            Err(e) => {
                return Err(e);
            },
        },
        None => {
            return Err(TiffError::Format(262));
        },
    };
    let samples_per_pixel = match find_tag(&tags, Tag::SamplesPerPixel) {
        Some(v) => match conv_u16(v) {
            Ok(x) => x,
            Err(e) => {
                return Err(e);
            },
        },
        None => {
            return Err(TiffError::Format(277));
        },
    };
    let compression = match find_tag(&tags, Tag::Compression) {
        Some(v) => match conv_u16(v) {
            Ok(c) => CompressionMethod::from_u16_exhaustive(c),
            Err(e) => {
                return Err(e);
            },
        },
        None => CompressionMethod::Uncompressed,
    };
    let planar_configuration = match find_tag(&tags, Tag::PlanarConfiguration) {
        Some(v) => match conv_u16(v) {
            Ok(c) => match PlanarConfiguration::from_u16(c) {
                Some(p) => p,
                None => PlanarConfiguration::Chunky,
            },
            Err(e) => {
                return Err(e);
            },
        },
        None => PlanarConfiguration::Chunky,
    };
    let predictor = match find_tag(&tags, Tag::Predictor) {
        Some(v) => match conv_u16(v) {
            Ok(c) => Predictor::from_u16(c),
            Err(e) => {
                return Err(e);
            },
        },
        None => None,
    };
    let resolution_unit = match find_tag(&tags, Tag::ResolutionUnit) {
        Some(v) => match conv_u16(v) {
            Ok(c) => ResolutionUnit::from_u16(c),
            Err(e) => {
                return Err(e);
            },
        },
        None => None,
    };
    let sample_format = match find_tag(&tags, Tag::SampleFormat) {
        Some(v) => match conv_u16_vec(v) {
            Ok(codes) => {
                let mut out: Vec<SampleFormat> = Vec::new();
                let n = codes.len();
                let mut i: usize = 0;
                while i < n
                    invariant
                        i <= n,
                        out@.len() == i,
                        forall|j: int|
                            0 <= j < i ==> out@[j] == spec_sample_format_from(codes@[j]),
                    decreases n - i,
                {
                    out.push(SampleFormat::from_u16_exhaustive(codes[i]));
                    i = i + 1;
                }
                proof {
                    assert(out@ =~= codes@.map_values(|c: u16| spec_sample_format_from(c)));
                }
                out
            },
            Err(e) => {
                return Err(e);
            },
        },
        None => {
            let mut out: Vec<SampleFormat> = Vec::new();
            let mut i: u16 = 0;
            while i < samples_per_pixel
                invariant
                    i <= samples_per_pixel,
                    out@.len() == i,
                    forall|j: int| 0 <= j < i ==> out@[j] == SampleFormat::Uint,
                decreases samples_per_pixel - i,
            {
                out.push(SampleFormat::Uint);
                i = i + 1;
            }
            proof {
                assert(out@ =~= Seq::new(
                    samples_per_pixel as nat,
                    |i: int| SampleFormat::Uint,
                ));
            }
            out
        },
    };
    Ok((
        image_width,
        image_height,
        bits_per_sample,
        photometric_interpretation,
        samples_per_pixel,
        compression,
        planar_configuration,
        predictor,
        resolution_unit,
        sample_format,
    ))
}

/// Lower the small optional tags: scalar sizes and descriptive strings.
#[verifier::rlimit(60)]
fn lower_opts(tags: &Vec<(Tag, TagValue)>) -> (r: Result<
    (
        Option<u32>,
        Option<u32>,
        Option<u32>,
        Option<u32>,
        Option<u16>,
        Option<String>,
        Option<String>,
        Option<String>,
        Option<String>,
        Option<String>,
        Option<String>,
        Option<String>,
    ),
    TiffError,
>)
    ensures
        (r is Ok <==> ok_opts(tags@)),
        (r matches Ok(t) ==> {
            &&& u32_field_is(tags@, Tag::NewSubfileType, t.0)
            &&& u32_field_is(tags@, Tag::RowsPerStrip, t.1)
            &&& u32_field_is(tags@, Tag::TileWidth, t.2)
            &&& u32_field_is(tags@, Tag::TileLength, t.3)
            &&& u16_field_is(tags@, Tag::Orientation, t.4)
            &&& string_field_is(tags@, Tag::DocumentName, t.5)
            &&& string_field_is(tags@, Tag::ImageDescription, t.6)
            &&& string_field_is(tags@, Tag::Software, t.7)
            &&& string_field_is(tags@, Tag::DateTime, t.8)
            &&& string_field_is(tags@, Tag::Artist, t.9)
            &&& string_field_is(tags@, Tag::HostComputer, t.10)
            &&& string_field_is(tags@, Tag::Copyright, t.11)
        }),
{
    let new_subfile_type = match find_tag(&tags, Tag::NewSubfileType) {
        Some(v) => match conv_u32(v) {
            Ok(x) => Some(x),
            Err(e) => {
                return Err(e);
            },
        },
        None => None,
    };
    let rows_per_strip = match find_tag(&tags, Tag::RowsPerStrip) {
        Some(v) => match conv_u32(v) {
            Ok(x) => Some(x),
            Err(e) => {
                return Err(e);
            },
        },
        None => None,
    };
    let tile_width = match find_tag(&tags, Tag::TileWidth) {
        Some(v) => match conv_u32(v) {
            Ok(x) => Some(x),
            Err(e) => {
                return Err(e);
            },
        },
        None => None,
    };
    let tile_height = match find_tag(&tags, Tag::TileLength) {
        Some(v) => match conv_u32(v) {
            Ok(x) => Some(x),
            Err(e) => {
                return Err(e);
            },
        },
        None => None,
    };
    let orientation = match find_tag(&tags, Tag::Orientation) {
        Some(v) => match conv_u16(v) {
            Ok(x) => Some(x),
            Err(e) => {
                return Err(e);
            },
        },
        None => None,
    };
    let document_name = match find_tag(&tags, Tag::DocumentName) {
        Some(v) => match conv_string(v) {
            Ok(x) => Some(x),
            Err(e) => {
                return Err(e);
            },
        },
        None => None,
    };
    let image_description = match find_tag(&tags, Tag::ImageDescription) {
        Some(v) => match conv_string(v) {
            Ok(x) => Some(x),
            Err(e) => {
                return Err(e);
            },
        },
        None => None,
    };
    let software = match find_tag(&tags, Tag::Software) {
        Some(v) => match conv_string(v) {
            Ok(x) => Some(x),
            Err(e) => {
                return Err(e);
            },
        },
        None => None,
    };
    let date_time = match find_tag(&tags, Tag::DateTime) {
        Some(v) => match conv_string(v) {
            Ok(x) => Some(x),
            Err(e) => {
                return Err(e);
            },
        },
        None => None,
    };
    let artist = match find_tag(&tags, Tag::Artist) {
        Some(v) => match conv_string(v) {
            Ok(x) => Some(x),
            Err(e) => {
                return Err(e);
            },
        },
        None => None,
    };
    let host_computer = match find_tag(&tags, Tag::HostComputer) {
        Some(v) => match conv_string(v) {
            Ok(x) => Some(x),
            Err(e) => {
                return Err(e);
            },
        },
        None => None,
    };
    let copyright = match find_tag(&tags, Tag::Copyright) {
        Some(v) => match conv_string(v) {
            Ok(x) => Some(x),
            Err(e) => {
                return Err(e);
            },
        },
        None => None,
    };
    Ok((
        new_subfile_type,
        rows_per_strip,
        tile_width,
        tile_height,
        orientation,
        document_name,
        image_description,
        software,
        date_time,
        artist,
        host_computer,
        copyright,
    ))
}

/// Lower the vector-valued and rational tags.
#[verifier::rlimit(60)]
fn lower_vecs(tags: &Vec<(Tag, TagValue)>) -> (r: Result<
    (
        Option<Vec<u64>>,
        Option<Vec<u64>>,
        Option<Vec<u64>>,
        Option<Vec<u64>>,
        Option<Vec<u16>>,
        Option<Vec<u16>>,
        Option<Vec<u16>>,
        Option<Vec<u16>>,
        Option<Vec<u8>>,
        Option<(u32, u32)>,
        Option<(u32, u32)>,
        Option<Vec<u64>>,
        Option<Vec<u64>>,
    ),
    TiffError,
>)
    ensures
        (r is Ok <==> ok_vecs(tags@)),
        (r matches Ok(t) ==> {
            &&& u64_vec_field_is(tags@, Tag::StripOffsets, t.0)
            &&& u64_vec_field_is(tags@, Tag::StripByteCounts, t.1)
            &&& u64_vec_field_is(tags@, Tag::TileOffsets, t.2)
            &&& u64_vec_field_is(tags@, Tag::TileByteCounts, t.3)
            &&& u16_vec_field_is(tags@, Tag::MinSampleValue, t.4)
            &&& u16_vec_field_is(tags@, Tag::MaxSampleValue, t.5)
            &&& u16_vec_field_is(tags@, Tag::ColorMap, t.6)
            &&& u16_vec_field_is(tags@, Tag::ExtraSamples, t.7)
            &&& u8_vec_field_is(tags@, Tag::JPEGTables, t.8)
            &&& rational_field_is(tags@, Tag::XResolution, t.9)
            &&& rational_field_is(tags@, Tag::YResolution, t.10)
            &&& f64_vec_field_is(tags@, Tag::ModelPixelScale, t.11)
            &&& f64_vec_field_is(tags@, Tag::ModelTiepoint, t.12)
        }),
{
    let strip_offsets = match find_tag(&tags, Tag::StripOffsets) {
        Some(v) => match conv_u64_vec(v) {
            Ok(x) => Some(x),
            Err(e) => {
                return Err(e);
            },
        },
        None => None,
    };
    let strip_byte_counts = match find_tag(&tags, Tag::StripByteCounts) {
        Some(v) => match conv_u64_vec(v) {
            Ok(x) => Some(x),
            Err(e) => {
                return Err(e);
            },
        },
        None => None,
    };
    let tile_offsets = match find_tag(&tags, Tag::TileOffsets) {
        Some(v) => match conv_u64_vec(v) {
            Ok(x) => Some(x),
            Err(e) => {
                return Err(e);
            },
        },
        None => None,
    };
    let tile_byte_counts = match find_tag(&tags, Tag::TileByteCounts) {
        Some(v) => match conv_u64_vec(v) {
            Ok(x) => Some(x),
            Err(e) => {
                return Err(e);
            },
        },
        None => None,
    };
    let min_sample_value = match find_tag(&tags, Tag::MinSampleValue) {
        Some(v) => match conv_u16_vec(v) {
            Ok(x) => Some(x),
            Err(e) => {
                return Err(e);
            },
        },
        None => None,
    };
    let max_sample_value = match find_tag(&tags, Tag::MaxSampleValue) {
        Some(v) => match conv_u16_vec(v) {
            Ok(x) => Some(x),
            Err(e) => {
                return Err(e);
            },
        },
        None => None,
    };
    let color_map = match find_tag(&tags, Tag::ColorMap) {
        Some(v) => match conv_u16_vec(v) {
            Ok(x) => Some(x),
            Err(e) => {
                return Err(e);
            },
        },
        None => None,
    };
    let extra_samples = match find_tag(&tags, Tag::ExtraSamples) {
        Some(v) => match conv_u16_vec(v) {
            Ok(x) => Some(x),
            Err(e) => {
                return Err(e);
            },
        },
        None => None,
    };
    let jpeg_tables = match find_tag(&tags, Tag::JPEGTables) {
        Some(v) => match conv_u8_vec(v) {
            Ok(x) => Some(x),
            Err(e) => {
                return Err(e);
            },
        },
        None => None,
    };
    let x_resolution = match find_tag(&tags, Tag::XResolution) {
        Some(v) => match conv_rational(v) {
            Ok(x) => Some(x),
            Err(e) => {
                return Err(e);
            },
        },
        None => None,
    };
    let y_resolution = match find_tag(&tags, Tag::YResolution) {
        Some(v) => match conv_rational(v) {
            Ok(x) => Some(x),
            Err(e) => {
                return Err(e);
            },
        },
        None => None,
    };
    let model_pixel_scale = match find_tag(&tags, Tag::ModelPixelScale) {
        Some(v) => match conv_f64_bits_vec(v) {
            Ok(x) => Some(x),
            Err(e) => {
                return Err(e);
            },
        },
        None => None,
    };
    let model_tiepoint = match find_tag(&tags, Tag::ModelTiepoint) {
        Some(v) => match conv_f64_bits_vec(v) {
            Ok(x) => Some(x),
            Err(e) => {
                return Err(e);
            },
        },
        None => None,
    };
    Ok((
        strip_offsets,
        strip_byte_counts,
        tile_offsets,
        tile_byte_counts,
        min_sample_value,
        max_sample_value,
        color_map,
        extra_samples,
        jpeg_tables,
        x_resolution,
        y_resolution,
        model_pixel_scale,
        model_tiepoint,
    ))
}

/// Lower the four linked geo tags into the key sub-directory.
#[verifier::rlimit(60)]
fn lower_geo(tags: &Vec<(Tag, TagValue)>) -> (r: Result<Option<GeoKeyDirectory>, TiffError>)
    ensures
        (r is Ok <==> ok_geo(tags@)),
        (r matches Ok(g) ==> geo_field_is(tags@, g)),
{
    let geo_ascii = match find_tag(&tags, Tag::GeoAsciiParams) {
        Some(v) => match conv_string(v) {
            Ok(x) => Some(x),
            Err(e) => {
                return Err(e);
            },
        },
        None => None,
    };
    let geo_doubles = match find_tag(&tags, Tag::GeoDoubleParams) {
        Some(v) => match conv_f64_bits_vec(v) {
            Ok(x) => Some(x),
            Err(e) => {
                return Err(e);
            },
        },
        None => None,
    };
    let geo_key_directory = match find_tag(&tags, Tag::GeoKeyDirectory) {
        Some(v) => match conv_u16_vec(v) {
            Ok(dir) => {
                let ascii_ref = match &geo_ascii {
                    Some(a) => Some(a),
                    None => None,
                };
                let doubles_ref = match &geo_doubles {
                    Some(d) => Some(d),
                    None => None,
                };
                match GeoKeyDirectory::from_raw(&dir, ascii_ref, doubles_ref) {
                    Ok(g) => Some(g),
                    Err(e) => {
                        return Err(e);
                    },
                }
            },
            Err(e) => {
                return Err(e);
            },
        },
        None => None,
    };
    Ok(geo_key_directory)
}

/// The entries whose tags are not lowered into named fields, in order.
#[verifier::loop_isolation(false)]
fn collect_other(tags: Vec<(Tag, TagValue)>) -> (r: Vec<(Tag, TagValue)>)
    ensures
        r@ == unknown_entries(tags@),
{
    let ghost orig = tags@;
    let mut rest = tags;
    let mut other_tags: Vec<(Tag, TagValue)> = Vec::new();
    proof {
        assert(orig.skip(0) =~= orig);
        assert(Seq::<(Tag, TagValue)>::empty() + unknown_entries(orig) =~= unknown_entries(
            orig,
        ));
    }
    while rest.len() > 0
        invariant
            rest@.len() <= orig.len(),
            unknown_entries(orig) == other_tags@ + unknown_entries(orig.skip(
                orig.len() - rest@.len(),
            )),
            orig.skip(orig.len() - rest@.len()) =~= rest@,
        decreases rest@.len(),
    {
        let ghost pre = rest@;
        let ghost pre_out = other_tags@;
        let (tag, value) = rest.remove(0);
        proof {
            assert(pre.drop_first() =~= rest@);
            assert(orig.skip(orig.len() - rest@.len()) =~= rest@);
        }
        if !known_tag(tag) {
            other_tags.push((tag, value));
            proof {
                assert(pre_out + (seq![(tag, value)] + unknown_entries(rest@)) =~= other_tags@
                    + unknown_entries(rest@));
            }
        }
        proof {
            assert(unknown_entries(pre) == if is_known_tag(tag) {
                unknown_entries(rest@)
            } else {
                seq![(tag, value)] + unknown_entries(rest@)
            });
        }
    }
    proof {
        assert(unknown_entries(orig.skip(orig.len() as int)) =~= Seq::<(Tag, TagValue)>::empty());
        assert(other_tags@ + Seq::<(Tag, TagValue)>::empty() =~= other_tags@);
    }
    other_tags
}

/// Whether `ifd` is the lowering of the raw tag table `tags` with the
/// given next-IFD offset: every named field holds the conversion of the
/// last entry with its tag, defaults filled in, and every other entry
/// preserved in order.
pub open spec fn is_lowering(
    tags: Seq<(Tag, TagValue)>,
    next: Option<u64>,
    ifd: ImageFileDirectory,
) -> bool {

                &&& Some(ifd.image_width) == as_u32(found(tags, Tag::ImageWidth).unwrap())
                &&& Some(ifd.image_height) == as_u32(found(tags, Tag::ImageLength).unwrap())
                &&& Some(ifd.bits_per_sample@) == as_u16_seq(
                    found(tags, Tag::BitsPerSample).unwrap(),
                )
                &&& Some(ifd.samples_per_pixel) == as_u16(
                    found(tags, Tag::SamplesPerPixel).unwrap(),
                )
                &&& Some(ifd.photometric_interpretation) == spec_photometric_from(
                    as_u16(found(tags, Tag::PhotometricInterpretation).unwrap()).unwrap(),
                )
                &&& ifd.compression == (match found(tags, Tag::Compression) {
                    Some(v) => spec_compression_from(as_u16(v).unwrap()),
                    None => CompressionMethod::Uncompressed,
                })
                &&& ifd.planar_configuration == (match found(tags, Tag::PlanarConfiguration) {
                    Some(v) => match spec_planar_from(as_u16(v).unwrap()) {
                        Some(p) => p,
                        None => PlanarConfiguration::Chunky,
                    },
                    None => PlanarConfiguration::Chunky,
                })
                &&& ifd.predictor == (match found(tags, Tag::Predictor) {
                    Some(v) => spec_predictor_from(as_u16(v).unwrap()),
                    None => None,
                })
                &&& ifd.resolution_unit == (match found(tags, Tag::ResolutionUnit) {
                    Some(v) => spec_resolution_from(as_u16(v).unwrap()),
                    None => None,
                })
                &&& (match found(tags, Tag::SampleFormat) {
                    Some(v) => ifd.sample_format@ == as_u16_seq(v).unwrap().map_values(
                        |c: u16| spec_sample_format_from(c),
                    ),
                    None => ifd.sample_format@ == Seq::new(
                        ifd.samples_per_pixel as nat,
                        |i: int| SampleFormat::Uint,
                    ),
                })
                &&& u32_field_is(tags, Tag::NewSubfileType, ifd.new_subfile_type)
                &&& u32_field_is(tags, Tag::RowsPerStrip, ifd.rows_per_strip)
                &&& u32_field_is(tags, Tag::TileWidth, ifd.tile_width)
                &&& u32_field_is(tags, Tag::TileLength, ifd.tile_height)
                &&& u16_field_is(tags, Tag::Orientation, ifd.orientation)
                &&& string_field_is(tags, Tag::DocumentName, ifd.document_name)
                &&& string_field_is(tags, Tag::ImageDescription, ifd.image_description)
                &&& string_field_is(tags, Tag::Software, ifd.software)
                &&& string_field_is(tags, Tag::DateTime, ifd.date_time)
                &&& string_field_is(tags, Tag::Artist, ifd.artist)
                &&& string_field_is(tags, Tag::HostComputer, ifd.host_computer)
                &&& string_field_is(tags, Tag::Copyright, ifd.copyright)
                &&& u64_vec_field_is(tags, Tag::StripOffsets, ifd.strip_offsets)
                &&& u64_vec_field_is(tags, Tag::StripByteCounts, ifd.strip_byte_counts)
                &&& u64_vec_field_is(tags, Tag::TileOffsets, ifd.tile_offsets)
                &&& u64_vec_field_is(tags, Tag::TileByteCounts, ifd.tile_byte_counts)
                &&& u16_vec_field_is(tags, Tag::MinSampleValue, ifd.min_sample_value)
                &&& u16_vec_field_is(tags, Tag::MaxSampleValue, ifd.max_sample_value)
                &&& u16_vec_field_is(tags, Tag::ColorMap, ifd.color_map)
                &&& u16_vec_field_is(tags, Tag::ExtraSamples, ifd.extra_samples)
                &&& u8_vec_field_is(tags, Tag::JPEGTables, ifd.jpeg_tables)
                &&& rational_field_is(tags, Tag::XResolution, ifd.x_resolution)
                &&& rational_field_is(tags, Tag::YResolution, ifd.y_resolution)
                &&& f64_vec_field_is(tags, Tag::ModelPixelScale, ifd.model_pixel_scale)
                &&& f64_vec_field_is(tags, Tag::ModelTiepoint, ifd.model_tiepoint)
                &&& geo_field_is(tags, ifd.geo_key_directory)
                &&& ifd.other_tags@ == unknown_entries(tags)
                &&& ifd.next_ifd_offset == next
}

impl ImageFileDirectory {
    /// Lower a raw tag table into a materialized directory. The last entry
    /// with a given tag wins; tags not recognised are preserved verbatim.
    /// The lowering fails when a mandatory tag is missing, a recognised
    /// tag does not convert to its field's type, or the geo sub-directory
    /// is malformed.
    #[verifier::rlimit(60)]
    pub fn from_tags(tags: Vec<(Tag, TagValue)>, next_ifd_offset: Option<u64>) -> (r: Result<
        ImageFileDirectory,
        TiffError,
    >)
        ensures
            (r is Ok <==> from_tags_ok(tags@)),
            found(tags@, Tag::ImageWidth) is None ==> (r matches Err(e) && e == TiffError::Format(256)),
            (has_u32(tags@, Tag::ImageWidth) && found(tags@, Tag::ImageLength) is None) ==> (r matches Err(e) && e == TiffError::Format(257)),
            (has_u32(tags@, Tag::ImageWidth) && has_u32(tags@, Tag::ImageLength) && found(
                tags@,
                Tag::BitsPerSample,
            ) is None) ==> (r matches Err(e) && e == TiffError::Format(258)),
            (has_u32(tags@, Tag::ImageWidth) && has_u32(tags@, Tag::ImageLength) && has_u16_vec(
                tags@,
                Tag::BitsPerSample,
            ) && (found(tags@, Tag::PhotometricInterpretation) is None || (as_u16(
                found(tags@, Tag::PhotometricInterpretation).unwrap(),
            ) matches Some(c) && spec_photometric_from(c) is None))) ==> (r matches Err(e) && e == TiffError::Format(262)),
            (has_u32(tags@, Tag::ImageWidth) && has_u32(tags@, Tag::ImageLength) && has_u16_vec(
                tags@,
                Tag::BitsPerSample,
            ) && has_u16(tags@, Tag::PhotometricInterpretation) && spec_photometric_from(
                as_u16(found(tags@, Tag::PhotometricInterpretation).unwrap()).unwrap(),
            ) is Some && found(tags@, Tag::SamplesPerPixel) is None) ==> (r matches Err(e) && e == TiffError::Format(277)),
            (r matches Ok(ifd) ==> is_lowering(tags@, next_ifd_offset, ifd)),
    {
        let core = match lower_core(&tags) {
            Ok(t) => t,
            Err(e) => {
                return Err(e);
            },
        };
        let opts = match lower_opts(&tags) {
            Ok(t) => t,
            Err(e) => {
                return Err(e);
            },
        };
        let vecs = match lower_vecs(&tags) {
            Ok(t) => t,
            Err(e) => {
                return Err(e);
            },
        };
        let geo_key_directory = match lower_geo(&tags) {
            Ok(g) => g,
            Err(e) => {
                return Err(e);
            },
        };
        let other_tags = collect_other(tags);
        let (
            image_width,
            image_height,
            bits_per_sample,
            photometric_interpretation,
            samples_per_pixel,
            compression,
            planar_configuration,
            predictor,
            resolution_unit,
            sample_format,
        ) = core;
        let (
            new_subfile_type,
            rows_per_strip,
            tile_width,
            tile_height,
            orientation,
            document_name,
            image_description,
            software,
            date_time,
            artist,
            host_computer,
            copyright,
        ) = opts;
        let (
            strip_offsets,
            strip_byte_counts,
            tile_offsets,
            tile_byte_counts,
            min_sample_value,
            max_sample_value,
            color_map,
            extra_samples,
            jpeg_tables,
            x_resolution,
            y_resolution,
            model_pixel_scale,
            model_tiepoint,
        ) = vecs;
        Ok(ImageFileDirectory {
            new_subfile_type,
            image_width,
            image_height,
            bits_per_sample,
            compression,
            photometric_interpretation,
            document_name,
            image_description,
            strip_offsets,
            orientation,
            samples_per_pixel,
            rows_per_strip,
            strip_byte_counts,
            min_sample_value,
            max_sample_value,
            x_resolution,
            y_resolution,
            planar_configuration,
            resolution_unit,
            software,
            date_time,
            artist,
            host_computer,
            predictor,
            color_map,
            tile_width,
            tile_height,
            tile_offsets,
            tile_byte_counts,
            extra_samples,
            sample_format,
            jpeg_tables,
            copyright,
            geo_key_directory,
            model_pixel_scale,
            model_tiepoint,
            other_tags,
            next_ifd_offset,
        })
    }
}

/// Whether a tag is lowered into a named field of the directory.
fn known_tag(t: Tag) -> (r: bool)
    ensures
        r == is_known_tag(t),
{
    match t {
        Tag::NewSubfileType | Tag::ImageWidth | Tag::ImageLength | Tag::BitsPerSample
            | Tag::Compression | Tag::PhotometricInterpretation | Tag::DocumentName
            | Tag::ImageDescription | Tag::StripOffsets | Tag::Orientation
            | Tag::SamplesPerPixel | Tag::RowsPerStrip | Tag::StripByteCounts
            | Tag::MinSampleValue | Tag::MaxSampleValue | Tag::XResolution | Tag::YResolution
            | Tag::PlanarConfiguration | Tag::ResolutionUnit | Tag::Software | Tag::DateTime
            | Tag::Artist | Tag::HostComputer | Tag::Predictor | Tag::ColorMap | Tag::TileWidth
            | Tag::TileLength | Tag::TileOffsets | Tag::TileByteCounts | Tag::ExtraSamples
            | Tag::SampleFormat | Tag::JPEGTables | Tag::Copyright | Tag::GeoKeyDirectory
            | Tag::ModelPixelScale | Tag::ModelTiepoint | Tag::GeoAsciiParams
            | Tag::GeoDoubleParams => true,
        _ => false,
    }
}


/// The number of tile columns of a tiled directory: the image width
/// divided by the tile width, rounded up.
pub open spec fn sp_tiles_across(ifd: ImageFileDirectory) -> int {
    (ifd.image_width + ifd.tile_width.unwrap() - 1) as int / ifd.tile_width.unwrap() as int
}

/// The number of tile rows of a tiled directory: the image height divided
/// by the tile height, rounded up.
pub open spec fn sp_tiles_down(ifd: ImageFileDirectory) -> int {
    (ifd.image_height + ifd.tile_height.unwrap() - 1) as int / ifd.tile_height.unwrap() as int
}

/// Whether the directory carries a usable tile grid.
pub open spec fn sp_tiled(ifd: ImageFileDirectory) -> bool {
    &&& ifd.tile_width matches Some(tw) && tw > 0
    &&& ifd.tile_height matches Some(th) && th > 0
    &&& ifd.tile_offsets is Some
    &&& ifd.tile_byte_counts is Some
}

/// The number of strip rows of a striped directory: the image height
/// divided by the rows per strip, rounded up. A directory without the
/// rows-per-strip tag holds one strip of the whole image.
pub open spec fn sp_strip_rows(ifd: ImageFileDirectory) -> int {
    match ifd.rows_per_strip {
        Some(r) => r as int,
        None => ifd.image_height as int,
    }
}

/// Whether the directory carries strips in place of tiles.
pub open spec fn sp_striped(ifd: ImageFileDirectory) -> bool {
    &&& !(ifd.tile_offsets is Some)
    &&& ifd.strip_offsets is Some
    &&& ifd.strip_byte_counts is Some
    &&& sp_strip_rows(ifd) > 0
    &&& ifd.image_height > 0
}

/// The byte range of the chunk at tile column `x`, row `y`, band `band`,
/// as start and end offsets, read from the offset and byte count tables.
pub open spec fn sp_chunk_span(ifd: ImageFileDirectory, x: int, y: int, band: int) -> (int, int) {
    let (offs, cnts, ta, td) = if sp_tiled(ifd) {
        (
            ifd.tile_offsets.unwrap()@,
            ifd.tile_byte_counts.unwrap()@,
            sp_tiles_across(ifd),
            sp_tiles_down(ifd),
        )
    } else {
        (
            ifd.strip_offsets.unwrap()@,
            ifd.strip_byte_counts.unwrap()@,
            1int,
            (ifd.image_height + sp_strip_rows(ifd) - 1) as int / sp_strip_rows(ifd),
        )
    };
    let idx = band * (ta * td) + y * ta + x;
    (offs[idx] as int, offs[idx] + cnts[idx])
}

/// The chunk tables and grid dimensions of a directory: offsets, byte
/// counts, tiles across and tiles down; a striped directory serves its
/// strips as a one-column grid.
pub open spec fn sp_grid(ifd: ImageFileDirectory) -> (Seq<u64>, Seq<u64>, int, int) {
    if sp_tiled(ifd) {
        (
            ifd.tile_offsets.unwrap()@,
            ifd.tile_byte_counts.unwrap()@,
            sp_tiles_across(ifd),
            sp_tiles_down(ifd),
        )
    } else {
        (
            ifd.strip_offsets.unwrap()@,
            ifd.strip_byte_counts.unwrap()@,
            1int,
            (ifd.image_height + sp_strip_rows(ifd) - 1) as int / sp_strip_rows(ifd),
        )
    }
}

/// Whether the chunk at tile column `x`, row `y`, band `band` can be
/// addressed: the grid exists, the offset and count tables agree, the
/// coordinates lie inside the grid, and the byte range does not overflow.
pub open spec fn sp_chunk_ok(ifd: ImageFileDirectory, x: int, y: int, band: int) -> bool {
    let (offs, cnts, ta, td) = sp_grid(ifd);
    let idx = band * (ta * td) + y * ta + x;
    &&& sp_tiled(ifd) || sp_striped(ifd)
    &&& offs.len() == cnts.len()
    &&& 0 <= x < ta
    &&& 0 <= y < td
    &&& 0 <= band <= u16::MAX
    &&& idx < offs.len()
    &&& offs[idx] + cnts[idx] <= u64::MAX
}

/// The tag code of the chunk offset table a directory uses: the tile
/// offsets tag for a tiled directory, the strip offsets tag otherwise.
pub open spec fn sp_offsets_tag(ifd: ImageFileDirectory) -> u16 {
    if sp_tiled(ifd) {
        324u16
    } else {
        273u16
    }
}

/// The error the chunk addressing reports when `sp_chunk_ok` fails, in
/// the order the conditions are checked: no grid, disagreeing tables, a
/// coordinate outside the grid, an overflowing byte range.
pub open spec fn sp_chunk_err(ifd: ImageFileDirectory, x: int, y: int, band: int) -> TiffError {
    let (offs, cnts, ta, td) = sp_grid(ifd);
    let idx = band * (ta * td) + y * ta + x;
    if !(sp_tiled(ifd) || sp_striped(ifd)) {
        TiffError::NotTiled
    } else if offs.len() != cnts.len() {
        TiffError::Format(sp_offsets_tag(ifd))
    } else if !(0 <= x < ta && 0 <= y < td && band <= u16::MAX && idx < offs.len()) {
        TiffError::OutOfBounds
    } else {
        TiffError::Format(sp_offsets_tag(ifd))
    }
}

impl ImageFileDirectory {
    /// The tile grid of the directory: columns across and rows down, or
    /// `None` for a directory without a usable tile grid.
    pub fn tile_count(&self) -> (r: Option<(usize, usize)>)
        ensures
            r == if (self.tile_width matches Some(tw) && tw > 0) && (self.tile_height
                matches Some(th) && th > 0) {
                Some((sp_tiles_across(*self) as usize, sp_tiles_down(*self) as usize))
            } else {
                None::<(usize, usize)>
            },
    {
        match (self.tile_width, self.tile_height) {
            (Some(tw), Some(th)) => {
                if tw == 0 || th == 0 {
                    return None;
                }
                let across = ((self.image_width as u64 + tw as u64 - 1) / tw as u64) as usize;
                let down = ((self.image_height as u64 + th as u64 - 1) / th as u64) as usize;
                Some((across, down))
            },
            _ => None,
        }
    }

    /// The byte range `[start, end)` of the chunk at tile column `x`, row
    /// `y`, band `band`. A striped directory serves its strips as tiles
    /// one image-width wide. The grid must exist, the offset and count
    /// tables must agree, and the indexes must lie inside the grid.
    pub fn chunk_byte_range(&self, x: usize, y: usize, band: usize) -> (r: Result<
        (u64, u64),
        TiffError,
    >)
        ensures
            (r matches Ok(se) ==> {
                let (offs, cnts, ta, td) = if sp_tiled(*self) {
                    (
                        self.tile_offsets.unwrap()@,
                        self.tile_byte_counts.unwrap()@,
                        sp_tiles_across(*self),
                        sp_tiles_down(*self),
                    )
                } else {
                    (
                        self.strip_offsets.unwrap()@,
                        self.strip_byte_counts.unwrap()@,
                        1int,
                        (self.image_height + sp_strip_rows(*self) - 1) as int / sp_strip_rows(
                            *self,
                        ),
                    )
                };
                let idx = band * (ta * td) + y * ta + x;
                &&& (sp_tiled(*self) || sp_striped(*self))
                &&& x < ta && y < td
                &&& offs.len() == cnts.len()
                &&& idx < offs.len()
                &&& se.0 == offs[idx]
                &&& se.1 == offs[idx] + cnts[idx]
                &&& (se.0 as int, se.1 as int) == sp_chunk_span(*self, x as int, y as int, band as int)
            }),
            (r is Ok <==> sp_chunk_ok(*self, x as int, y as int, band as int)),
            (r matches Err(e) ==> e == sp_chunk_err(*self, x as int, y as int, band as int)),
            !(sp_tiled(*self) || sp_striped(*self)) ==> r == Err::<(u64, u64), TiffError>(
                TiffError::NotTiled,
            ),
    {
        let tiled = self.tile_offsets.is_some() && self.tile_byte_counts.is_some()
            && self.tile_width.is_some() && self.tile_height.is_some() && match self.tile_width {
            Some(w) => w > 0,
            None => false,
        } && match self.tile_height {
            Some(h) => h > 0,
            None => false,
        };
        let (offs, cnts, ta, td): (&Vec<u64>, &Vec<u64>, u64, u64) = if self.tile_offsets.is_some()
            && self.tile_byte_counts.is_some() && self.tile_width.is_some()
            && self.tile_height.is_some() {
            let tw = self.tile_width.as_ref().unwrap();
            let th = self.tile_height.as_ref().unwrap();
            if *tw == 0 || *th == 0 {
                return Err(TiffError::NotTiled);
            }
            let ta = (self.image_width as u64 + *tw as u64 - 1) / *tw as u64;
            let td = (self.image_height as u64 + *th as u64 - 1) / *th as u64;
            (
                self.tile_offsets.as_ref().unwrap(),
                self.tile_byte_counts.as_ref().unwrap(),
                ta,
                td,
            )
        } else if !self.tile_offsets.is_some() && self.strip_offsets.is_some()
            && self.strip_byte_counts.is_some() {
            let rows = match self.rows_per_strip {
                Some(rp) => rp,
                None => self.image_height,
            };
            if rows == 0 || self.image_height == 0 {
                return Err(TiffError::NotTiled);
            }
            let td = (self.image_height as u64 + rows as u64 - 1) / rows as u64;
            (
                self.strip_offsets.as_ref().unwrap(),
                self.strip_byte_counts.as_ref().unwrap(),
                1,
                td,
            )
        } else {
            return Err(TiffError::NotTiled);
        };
        let offsets_tag: u16 = if tiled {
            324
        } else {
            273
        };
        if offs.len() != cnts.len() {
            return Err(TiffError::Format(offsets_tag));
        }
        if (x as u64) >= ta || (y as u64) >= td {
            return Err(TiffError::OutOfBounds);
        }
        if band > u16::MAX as usize {
            return Err(TiffError::OutOfBounds);
        }
        proof {
            assert(ta <= 0x2_0000_0000 && td <= 0x2_0000_0000);
            assert(ta * td <= 0x2_0000_0000 * 0x2_0000_0000int) by (nonlinear_arith)
                requires
                    0 <= ta <= 0x2_0000_0000 && 0 <= td <= 0x2_0000_0000,
            ;
            assert(y as int * ta as int <= 0x2_0000_0000 * 0x2_0000_0000int) by (nonlinear_arith)
                requires
                    0 <= y <= 0x2_0000_0000 && 0 <= ta <= 0x2_0000_0000,
            ;
            assert(band as int * (ta as int * td as int) <= 0x1_0000 * (0x2_0000_0000
                * 0x2_0000_0000int)) by (nonlinear_arith)
                requires
                    0 <= band <= 0x1_0000 && 0 <= ta as int * td as int <= 0x2_0000_0000
                        * 0x2_0000_0000int,
            ;
        }
        let idx128: u128 = band as u128 * (ta as u128 * td as u128) + y as u128 * ta as u128
            + x as u128;
        if idx128 >= offs.len() as u128 {
            return Err(TiffError::OutOfBounds);
        }
        let idx = idx128 as usize;
        proof {
            assert(idx as int == band * (ta as int * td as int) + y * ta + x);
        }
        let start = offs[idx];
        let cnt = cnts[idx];
        if cnt > u64::MAX - start {
            return Err(TiffError::Format(offsets_tag));
        }
        Ok((start, start + cnt))
    }

    /// The byte range of the tile at column `x`, row `y` of a chunky
    /// directory.
    pub fn get_tile_byte_range(&self, x: usize, y: usize) -> (r: Result<(u64, u64), TiffError>)
        ensures
            (r matches Ok(se) ==> {
                let (offs, cnts, ta) = if sp_tiled(*self) {
                    (
                        self.tile_offsets.unwrap()@,
                        self.tile_byte_counts.unwrap()@,
                        sp_tiles_across(*self),
                    )
                } else {
                    (self.strip_offsets.unwrap()@, self.strip_byte_counts.unwrap()@, 1int)
                };
                let idx = y * ta + x;
                &&& (sp_tiled(*self) || sp_striped(*self))
                &&& offs.len() == cnts.len()
                &&& idx < offs.len()
                &&& se.0 == offs[idx]
                &&& se.1 == offs[idx] + cnts[idx]
                &&& (se.0 as int, se.1 as int) == sp_chunk_span(*self, x as int, y as int, 0)
            }),
            (r is Ok <==> sp_chunk_ok(*self, x as int, y as int, 0)),
            (r matches Err(e) ==> e == sp_chunk_err(*self, x as int, y as int, 0)),
            !(sp_tiled(*self) || sp_striped(*self)) ==> r == Err::<(u64, u64), TiffError>(
                TiffError::NotTiled,
            ),
    {
        self.chunk_byte_range(x, y, 0)
    }

    /// Whether this directory holds an internal transparency mask.
    pub fn is_masked(&self) -> (r: bool)
        ensures
            r == (self.new_subfile_type matches Some(s) && (s == 1 || s == 2)
                && self.photometric_interpretation is TransparencyMask && self.compression
                is Deflate),
    {
        if let Some(subfile_type) = self.new_subfile_type {
            (subfile_type == 1 || subfile_type == 2) && self.photometric_interpretation
                == PhotometricInterpretation::TransparencyMask && self.compression
                == CompressionMethod::Deflate
        } else {
            false
        }
    }

    /// Whether this directory holds the full-resolution image rather than
    /// an overview: the subfile tag is absent, or its reduced-resolution
    /// bit is clear.
    pub fn is_full_resolution(&self) -> (r: bool)
        ensures
            r == (match self.new_subfile_type {
                Some(v) => v % 2 == 0,
                None => true,
            }),
    {
        if let Some(val) = self.new_subfile_type {
            val % 2 == 0
        } else {
            true
        }
    }
}

/// A palette entry scaled from the 16-bit color map to 8 bits, rounding
/// down.
pub open spec fn sp_cmap_entry(val: u16) -> u8 {
    ((val as int * 255) / 65535) as u8
}

impl ImageFileDirectory {
    /// The palette of a palette-color image, as 8-bit red, green, blue
    /// triples indexed by pixel value; `None` for a directory without a
    /// usable color map.
    #[verifier::loop_isolation(false)]
    pub fn colormap(&self) -> (r: Option<Vec<(u8, u8, u8)>>)
        ensures
            (r matches Some(v) ==> {
                let cmap = self.color_map.unwrap()@;
                let count = vstd::arithmetic::power2::pow2(
                    self.bits_per_sample@[0] as nat,
                ) as int;
                &&& self.color_map is Some
                &&& self.bits_per_sample@.len() > 0
                &&& self.bits_per_sample@[0] <= 16
                &&& cmap.len() >= 3 * count
                &&& v@.len() == count
                &&& (forall|i: int|
                    0 <= i < count ==> #[trigger] v@[i] == (
                        sp_cmap_entry(cmap[i]),
                        sp_cmap_entry(cmap[i + count]),
                        sp_cmap_entry(cmap[i + 2 * count]),
                    ))
            }),
            r is None ==> !({
                &&& self.color_map is Some
                &&& self.bits_per_sample@.len() > 0
                &&& self.bits_per_sample@[0] <= 16
                &&& self.color_map.unwrap()@.len() >= 3 * vstd::arithmetic::power2::pow2(
                    self.bits_per_sample@[0] as nat,
                )
            }),
    {
        proof {
            vstd::arithmetic::power2::lemma2_to64();
        }
        let cmap = match &self.color_map {
            Some(c) => c,
            None => {
                return None;
            },
        };
        if self.bits_per_sample.len() == 0 {
            return None;
        }
        let bits = self.bits_per_sample[0];
        if bits > 16 {
            return None;
        }
        let count: usize = pow2_u32(bits) as usize;
        proof {
            if (bits as nat) < 16 {
                vstd::arithmetic::power2::lemma_pow2_strictly_increases(bits as nat, 16);
            }
            assert(count <= 65536);
        }
        if cmap.len() < 3 * count {
            return None;
        }
        let mut out: Vec<(u8, u8, u8)> = Vec::new();
        let mut i: usize = 0;
        while i < count
            invariant
                i <= count,
                3 * count <= cmap@.len(),
                out@.len() == i,
                forall|j: int|
                    0 <= j < i ==> #[trigger] out@[j] == (
                        sp_cmap_entry(cmap@[j]),
                        sp_cmap_entry(cmap@[j + count]),
                        sp_cmap_entry(cmap@[j + 2 * count]),
                    ),
            decreases count - i,
        {
            let rv = cmap_entry(cmap[i]);
            let gv = cmap_entry(cmap[i + count]);
            let bv = cmap_entry(cmap[i + 2 * count]);
            out.push((rv, gv, bv));
            i = i + 1;
        }
        Some(out)
    }
}

/// Scale one 16-bit palette value down to 8 bits, rounding down.
fn cmap_entry(val: u16) -> (r: u8)
    ensures
        r == sp_cmap_entry(val),
{
    ((val as u32 * 255) / 65535) as u8
}

/// Two to the given power, for exponents small enough that the result
/// fits a machine word.
#[verifier::loop_isolation(false)]
fn pow2_u32(e: u16) -> (r: u32)
    requires
        e <= 16,
    ensures
        r == vstd::arithmetic::power2::pow2(e as nat),
{
    proof {
        vstd::arithmetic::power2::lemma2_to64();
        assert(vstd::arithmetic::power2::pow2(e as nat) <= vstd::arithmetic::power2::pow2(16))
            by {
            if e < 16 {
                vstd::arithmetic::power2::lemma_pow2_strictly_increases(e as nat, 16);
            }
        }
    }
    let mut r: u32 = 1;
    let mut k: u16 = 0;
    while k < e
        invariant
            k <= e,
            r == vstd::arithmetic::power2::pow2(k as nat),
            r <= 0x10000,
        decreases e - k,
    {
        proof {
            vstd::arithmetic::power2::lemma_pow2_unfold((k + 1) as nat);
            assert(vstd::arithmetic::power2::pow2((k + 1) as nat) <= vstd::arithmetic::power2::pow2(
                16,
            )) by {
                if k + 1 < 16 {
                    vstd::arithmetic::power2::lemma_pow2_strictly_increases((k + 1) as nat, 16);
                }
            }
            vstd::arithmetic::power2::lemma2_to64();
        }
        r = r * 2;
        k = k + 1;
    }
    r
}

impl ImageFileDirectory {
    /// The kind of subfile, from NewSubfileType.
    pub fn new_subfile_type(&self) -> (r: Option<u32>)
        ensures
            r == self.new_subfile_type,
    {
        self.new_subfile_type
    }

    /// The number of columns in the image.
    pub fn image_width(&self) -> (r: u32)
        ensures
            r == self.image_width,
    {
        self.image_width
    }

    /// The number of rows in the image.
    pub fn image_height(&self) -> (r: u32)
        ensures
            r == self.image_height,
    {
        self.image_height
    }

    /// The bit depth of each sample.
    pub fn bits_per_sample(&self) -> (r: &Vec<u16>)
        ensures
            *r == self.bits_per_sample,
    {
        &self.bits_per_sample
    }

    /// The compression scheme of the image data.
    pub fn compression(&self) -> (r: CompressionMethod)
        ensures
            r == self.compression,
    {
        self.compression
    }

    /// The color space of the image data.
    pub fn photometric_interpretation(&self) -> (r: PhotometricInterpretation)
        ensures
            r == self.photometric_interpretation,
    {
        self.photometric_interpretation
    }

    /// The name of the document the image was scanned from.
    pub fn document_name(&self) -> (r: &Option<String>)
        ensures
            *r == self.document_name,
    {
        &self.document_name
    }

    /// A description of the image.
    pub fn image_description(&self) -> (r: &Option<String>)
        ensures
            *r == self.image_description,
    {
        &self.image_description
    }

    /// The byte offset of each strip.
    pub fn strip_offsets(&self) -> (r: &Option<Vec<u64>>)
        ensures
            *r == self.strip_offsets,
    {
        &self.strip_offsets
    }

    /// The orientation of the image.
    pub fn orientation(&self) -> (r: Option<u16>)
        ensures
            r == self.orientation,
    {
        self.orientation
    }

    /// The number of components per pixel.
    pub fn samples_per_pixel(&self) -> (r: u16)
        ensures
            r == self.samples_per_pixel,
    {
        self.samples_per_pixel
    }

    /// The number of rows in each strip.
    pub fn rows_per_strip(&self) -> (r: Option<u32>)
        ensures
            r == self.rows_per_strip,
    {
        self.rows_per_strip
    }

    /// The length in bytes of each compressed strip.
    pub fn strip_byte_counts(&self) -> (r: &Option<Vec<u64>>)
        ensures
            *r == self.strip_byte_counts,
    {
        &self.strip_byte_counts
    }

    /// The minimum sample value of each component.
    pub fn min_sample_value(&self) -> (r: &Option<Vec<u16>>)
        ensures
            *r == self.min_sample_value,
    {
        &self.min_sample_value
    }

    /// The maximum sample value of each component.
    pub fn max_sample_value(&self) -> (r: &Option<Vec<u16>>)
        ensures
            *r == self.max_sample_value,
    {
        &self.max_sample_value
    }

    /// Pixels per resolution unit across, as a raw rational.
    pub fn x_resolution(&self) -> (r: Option<(u32, u32)>)
        ensures
            r == self.x_resolution,
    {
        self.x_resolution
    }

    /// Pixels per resolution unit down, as a raw rational.
    pub fn y_resolution(&self) -> (r: Option<(u32, u32)>)
        ensures
            r == self.y_resolution,
    {
        self.y_resolution
    }

    /// How components are laid out.
    pub fn planar_configuration(&self) -> (r: PlanarConfiguration)
        ensures
            r == self.planar_configuration,
    {
        self.planar_configuration
    }

    /// The unit of the resolution tags.
    pub fn resolution_unit(&self) -> (r: Option<ResolutionUnit>)
        ensures
            r == self.resolution_unit,
    {
        self.resolution_unit
    }

    /// The software that wrote the image.
    pub fn software(&self) -> (r: &Option<String>)
        ensures
            *r == self.software,
    {
        &self.software
    }

    /// The creation date and time of the image.
    pub fn date_time(&self) -> (r: &Option<String>)
        ensures
            *r == self.date_time,
    {
        &self.date_time
    }

    /// The artist who produced the image.
    pub fn artist(&self) -> (r: &Option<String>)
        ensures
            *r == self.artist,
    {
        &self.artist
    }

    /// The computer the image was created on.
    pub fn host_computer(&self) -> (r: &Option<String>)
        ensures
            *r == self.host_computer,
    {
        &self.host_computer
    }

    /// The predictor applied before compression.
    pub fn predictor(&self) -> (r: Option<Predictor>)
        ensures
            r == self.predictor,
    {
        self.predictor
    }

    /// The width of each tile.
    pub fn tile_width(&self) -> (r: Option<u32>)
        ensures
            r == self.tile_width,
    {
        self.tile_width
    }

    /// The height of each tile.
    pub fn tile_height(&self) -> (r: Option<u32>)
        ensures
            r == self.tile_height,
    {
        self.tile_height
    }

    /// The byte offset of each tile.
    pub fn tile_offsets(&self) -> (r: &Option<Vec<u64>>)
        ensures
            *r == self.tile_offsets,
    {
        &self.tile_offsets
    }

    /// The length in bytes of each compressed tile.
    pub fn tile_byte_counts(&self) -> (r: &Option<Vec<u64>>)
        ensures
            *r == self.tile_byte_counts,
    {
        &self.tile_byte_counts
    }

    /// The meaning of any extra components.
    pub fn extra_samples(&self) -> (r: &Option<Vec<u16>>)
        ensures
            *r == self.extra_samples,
    {
        &self.extra_samples
    }

    /// The numeric format of each component.
    pub fn sample_format(&self) -> (r: &Vec<SampleFormat>)
        ensures
            *r == self.sample_format,
    {
        &self.sample_format
    }

    /// The shared JPEG tables of the file, if any.
    pub fn jpeg_tables(&self) -> (r: &Option<Vec<u8>>)
        ensures
            *r == self.jpeg_tables,
    {
        &self.jpeg_tables
    }

    /// The copyright notice of the image.
    pub fn copyright(&self) -> (r: &Option<String>)
        ensures
            *r == self.copyright,
    {
        &self.copyright
    }

    /// The parsed GeoTIFF key sub-directory, if present.
    pub fn geo_key_directory(&self) -> (r: &Option<GeoKeyDirectory>)
        ensures
            *r == self.geo_key_directory,
    {
        &self.geo_key_directory
    }

    /// The pixel scale of a geo-referenced image, as IEEE bit patterns.
    pub fn model_pixel_scale(&self) -> (r: &Option<Vec<u64>>)
        ensures
            *r == self.model_pixel_scale,
    {
        &self.model_pixel_scale
    }

    /// The tie points of a geo-referenced image, as IEEE bit patterns.
    pub fn model_tiepoint(&self) -> (r: &Option<Vec<u64>>)
        ensures
            *r == self.model_tiepoint,
    {
        &self.model_tiepoint
    }

    /// Every tag not lowered into a named field, in file order.
    pub fn other_tags(&self) -> (r: &Vec<(Tag, TagValue)>)
        ensures
            *r == self.other_tags,
    {
        &self.other_tags
    }

    /// The offset of the next IFD in the chain, if any.
    pub fn next_ifd_offset(&self) -> (r: Option<u64>)
        ensures
            r == self.next_ifd_offset,
    {
        self.next_ifd_offset
    }
}

/// Whether the chunk tables of a directory agree with its tile grid: one
/// offset and one byte count per tile, or per band and tile for a planar
/// directory.
pub open spec fn sp_grid_consistent(ifd: ImageFileDirectory) -> bool {
    sp_tiled(ifd) ==> {
        let cells = if ifd.planar_configuration is Chunky {
            sp_tiles_across(ifd) * sp_tiles_down(ifd)
        } else {
            ifd.samples_per_pixel * (sp_tiles_across(ifd) * sp_tiles_down(ifd))
        };
        &&& ifd.tile_offsets.unwrap()@.len() == cells
        &&& ifd.tile_byte_counts.unwrap()@.len() == cells
    }
}

/// The tile grid addresses exactly the chunk tables: for a chunky tiled
/// directory whose tables agree with its grid, the grid size equals both
/// table lengths, and every coordinate inside the grid indexes a real
/// table entry.
pub proof fn lemma_grid_round_trip(ifd: ImageFileDirectory, x: int, y: int)
    requires
        sp_tiled(ifd),
        ifd.planar_configuration is Chunky,
        sp_grid_consistent(ifd),
        0 <= x < sp_tiles_across(ifd),
        0 <= y < sp_tiles_down(ifd),
    ensures
        sp_tiles_across(ifd) * sp_tiles_down(ifd) == ifd.tile_offsets.unwrap()@.len(),
        sp_tiles_across(ifd) * sp_tiles_down(ifd) == ifd.tile_byte_counts.unwrap()@.len(),
        0 <= y * sp_tiles_across(ifd) + x < ifd.tile_offsets.unwrap()@.len(),
{
    let ta = sp_tiles_across(ifd);
    let td = sp_tiles_down(ifd);
    assert(0 <= y * ta + x < ta * td) by (nonlinear_arith)
        requires
            0 <= x < ta && 0 <= y < td,
    ;
}

} // verus!
