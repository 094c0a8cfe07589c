//! The dynamically typed values carried by IFD entries, with fallible
//! widening conversions to the integer primitives.

use vstd::prelude::*;

use crate::error::TiffError;

verus! {

/// A dynamically typed value parsed from a TIFF IFD entry.
///
/// Each variant corresponds to one of the TIFF data types. Multi-value
/// entries are represented as [`TagValue::List`]. Floating point values are
/// carried as their raw IEEE bit patterns, so that the parsed directory
/// holds plain machine words throughout.
#[derive(Debug, PartialEq)]
pub enum TagValue {
    /// 8-bit unsigned integer (TIFF type BYTE).
    Byte(u8),
    /// 16-bit unsigned integer (TIFF type SHORT).
    Short(u16),
    /// 8-bit signed integer (TIFF type SBYTE).
    SignedByte(i8),
    /// 16-bit signed integer (TIFF type SSHORT).
    SignedShort(i16),
    /// 32-bit signed integer (TIFF type SLONG).
    Signed(i32),
    /// 64-bit signed integer (BigTIFF type SLONG8).
    SignedBig(i64),
    /// 32-bit unsigned integer (TIFF type LONG).
    Unsigned(u32),
    /// 64-bit unsigned integer (BigTIFF type LONG8).
    UnsignedBig(u64),
    /// The IEEE bit pattern of a 32-bit float (TIFF type FLOAT).
    Float(u32),
    /// The IEEE bit pattern of a 64-bit float (TIFF type DOUBLE).
    Double(u64),
    /// A sequence of values from a multi-count IFD entry.
    List(Vec<TagValue>),
    /// Unsigned rational: numerator and denominator (TIFF type RATIONAL).
    Rational(u32, u32),
    /// Unsigned rational with 64-bit components (BigTIFF).
    RationalBig(u64, u64),
    /// Signed rational: numerator and denominator (TIFF type SRATIONAL).
    SRational(i32, i32),
    /// Signed rational with 64-bit components (BigTIFF).
    SRationalBig(i64, i64),
    /// A string parsed from TIFF type ASCII.
    Ascii(String),
    /// 32-bit IFD offset (TIFF type IFD).
    Ifd(u32),
    /// 64-bit IFD offset (BigTIFF type IFD8).
    IfdBig(u64),
}

/// The u8 a value narrows to, if any. A singleton list narrows as its
/// element does.
pub open spec fn as_u8(v: TagValue) -> Option<u8>
    decreases v,
{
    match v {
        TagValue::Byte(x) => Some(x),
        TagValue::List(xs) => if xs@.len() == 1 {
            as_u8(xs@[0])
        } else {
            None
        },
        _ => None,
    }
}

/// The i8 a value narrows to, if any.
pub open spec fn as_i8(v: TagValue) -> Option<i8>
    decreases v,
{
    match v {
        TagValue::SignedByte(x) => Some(x),
        TagValue::List(xs) => if xs@.len() == 1 {
            as_i8(xs@[0])
        } else {
            None
        },
        _ => None,
    }
}

/// The u16 a value widens or narrows to, if any.
pub open spec fn as_u16(v: TagValue) -> Option<u16>
    decreases v,
{
    match v {
        TagValue::Byte(x) => Some(x as u16),
        TagValue::Short(x) => Some(x),
        TagValue::Unsigned(x) => if x <= u16::MAX as u32 {
            Some(x as u16)
        } else {
            None
        },
        TagValue::UnsignedBig(x) => if x <= u16::MAX as u64 {
            Some(x as u16)
        } else {
            None
        },
        TagValue::List(xs) => if xs@.len() == 1 {
            as_u16(xs@[0])
        } else {
            None
        },
        _ => None,
    }
}

/// The i16 a value widens or narrows to, if any.
pub open spec fn as_i16(v: TagValue) -> Option<i16>
    decreases v,
{
    match v {
        TagValue::SignedByte(x) => Some(x as i16),
        TagValue::SignedShort(x) => Some(x),
        TagValue::Signed(x) => if i16::MIN as i32 <= x <= i16::MAX as i32 {
            Some(x as i16)
        } else {
            None
        },
        TagValue::SignedBig(x) => if i16::MIN as i64 <= x <= i16::MAX as i64 {
            Some(x as i16)
        } else {
            None
        },
        TagValue::List(xs) => if xs@.len() == 1 {
            as_i16(xs@[0])
        } else {
            None
        },
        _ => None,
    }
}

/// The u32 a value widens or narrows to, if any.
pub open spec fn as_u32(v: TagValue) -> Option<u32>
    decreases v,
{
    match v {
        TagValue::Byte(x) => Some(x as u32),
        TagValue::Short(x) => Some(x as u32),
        TagValue::Unsigned(x) => Some(x),
        TagValue::UnsignedBig(x) => if x <= u32::MAX as u64 {
            Some(x as u32)
        } else {
            None
        },
        TagValue::Ifd(x) => Some(x),
        TagValue::IfdBig(x) => if x <= u32::MAX as u64 {
            Some(x as u32)
        } else {
            None
        },
        TagValue::List(xs) => if xs@.len() == 1 {
            as_u32(xs@[0])
        } else {
            None
        },
        _ => None,
    }
}

/// The i32 a value widens or narrows to, if any.
pub open spec fn as_i32(v: TagValue) -> Option<i32>
    decreases v,
{
    match v {
        TagValue::SignedByte(x) => Some(x as i32),
        TagValue::SignedShort(x) => Some(x as i32),
        TagValue::Signed(x) => Some(x),
        TagValue::SignedBig(x) => if i32::MIN as i64 <= x <= i32::MAX as i64 {
            Some(x as i32)
        } else {
            None
        },
        TagValue::List(xs) => if xs@.len() == 1 {
            as_i32(xs@[0])
        } else {
            None
        },
        _ => None,
    }
}

/// The u64 a value widens to, if any.
pub open spec fn as_u64(v: TagValue) -> Option<u64>
    decreases v,
{
    match v {
        TagValue::Byte(x) => Some(x as u64),
        TagValue::Short(x) => Some(x as u64),
        TagValue::Unsigned(x) => Some(x as u64),
        TagValue::UnsignedBig(x) => Some(x),
        TagValue::Ifd(x) => Some(x as u64),
        TagValue::IfdBig(x) => Some(x),
        TagValue::List(xs) => if xs@.len() == 1 {
            as_u64(xs@[0])
        } else {
            None
        },
        _ => None,
    }
}

/// The i64 a value widens to, if any.
pub open spec fn as_i64(v: TagValue) -> Option<i64>
    decreases v,
{
    match v {
        TagValue::SignedByte(x) => Some(x as i64),
        TagValue::SignedShort(x) => Some(x as i64),
        TagValue::Signed(x) => Some(x as i64),
        TagValue::SignedBig(x) => Some(x),
        TagValue::List(xs) => if xs@.len() == 1 {
            as_i64(xs@[0])
        } else {
            None
        },
        _ => None,
    }
}

/// The 32-bit float bit pattern a value holds, if any.
pub open spec fn as_f32_bits(v: TagValue) -> Option<u32> {
    match v {
        TagValue::Float(x) => Some(x),
        _ => None,
    }
}

/// The 64-bit float bit pattern a value holds, if any.
pub open spec fn as_f64_bits(v: TagValue) -> Option<u64> {
    match v {
        TagValue::Double(x) => Some(x),
        _ => None,
    }
}

/// The string a value holds, if any.
pub open spec fn as_string(v: TagValue) -> Option<Seq<char>> {
    match v {
        TagValue::Ascii(s) => Some(s@),
        _ => None,
    }
}

/// Narrow every element of a list to u8, failing if any element fails.
pub open spec fn u8_elems(elems: Seq<TagValue>) -> Option<Seq<u8>>
    decreases elems.len(),
{
    if elems.len() == 0 {
        Some(Seq::empty())
    } else {
        match as_u8(elems[0]) {
            Some(x) => match u8_elems(elems.drop_first()) {
                Some(rest) => Some(seq![x] + rest),
                None => None,
            },
            None => None,
        }
    }
}

/// Narrow every element of a list to u16, failing if any element fails.
pub open spec fn u16_elems(elems: Seq<TagValue>) -> Option<Seq<u16>>
    decreases elems.len(),
{
    if elems.len() == 0 {
        Some(Seq::empty())
    } else {
        match as_u16(elems[0]) {
            Some(x) => match u16_elems(elems.drop_first()) {
                Some(rest) => Some(seq![x] + rest),
                None => None,
            },
            None => None,
        }
    }
}

/// Narrow every element of a list to u32, failing if any element fails.
pub open spec fn u32_elems(elems: Seq<TagValue>) -> Option<Seq<u32>>
    decreases elems.len(),
{
    if elems.len() == 0 {
        Some(Seq::empty())
    } else {
        match as_u32(elems[0]) {
            Some(x) => match u32_elems(elems.drop_first()) {
                Some(rest) => Some(seq![x] + rest),
                None => None,
            },
            None => None,
        }
    }
}

/// Narrow every element of a list to u64, failing if any element fails.
pub open spec fn u64_elems(elems: Seq<TagValue>) -> Option<Seq<u64>>
    decreases elems.len(),
{
    if elems.len() == 0 {
        Some(Seq::empty())
    } else {
        match as_u64(elems[0]) {
            Some(x) => match u64_elems(elems.drop_first()) {
                Some(rest) => Some(seq![x] + rest),
                None => None,
            },
            None => None,
        }
    }
}

/// The 32-bit float bit patterns of every element of a list, failing
/// if any element is not a 32-bit float.
pub open spec fn f32_bits_elems(elems: Seq<TagValue>) -> Option<Seq<u32>>
    decreases elems.len(),
{
    if elems.len() == 0 {
        Some(Seq::empty())
    } else {
        match as_f32_bits(elems[0]) {
            Some(x) => match f32_bits_elems(elems.drop_first()) {
                Some(rest) => Some(seq![x] + rest),
                None => None,
            },
            None => None,
        }
    }
}

/// The 64-bit float bit patterns of every element of a list, failing
/// if any element is not a 64-bit float.
pub open spec fn f64_bits_elems(elems: Seq<TagValue>) -> Option<Seq<u64>>
    decreases elems.len(),
{
    if elems.len() == 0 {
        Some(Seq::empty())
    } else {
        match as_f64_bits(elems[0]) {
            Some(x) => match f64_bits_elems(elems.drop_first()) {
                Some(rest) => Some(seq![x] + rest),
                None => None,
            },
            None => None,
        }
    }
}


/// The sequence of u8 a value converts to, if any.
pub open spec fn as_u8_seq(v: TagValue) -> Option<Seq<u8>> {
    match v {
        TagValue::List(xs) => u8_elems(xs@),
        TagValue::Byte(x) => Some(seq![x]),
        _ => None,
    }
}

/// The sequence of u16 a value converts to, if any.
pub open spec fn as_u16_seq(v: TagValue) -> Option<Seq<u16>> {
    match v {
        TagValue::List(xs) => u16_elems(xs@),
        TagValue::Byte(x) => Some(seq![x as u16]),
        TagValue::Short(x) => Some(seq![x]),
        _ => None,
    }
}

/// The sequence of u32 a value converts to, if any. Rationals contribute
/// their numerator and denominator; a string contributes its characters.
pub open spec fn as_u32_seq(v: TagValue) -> Option<Seq<u32>> {
    match v {
        TagValue::List(xs) => u32_elems(xs@),
        TagValue::Byte(x) => Some(seq![x as u32]),
        TagValue::Short(x) => Some(seq![x as u32]),
        TagValue::Unsigned(x) => Some(seq![x]),
        TagValue::UnsignedBig(x) => if x <= u32::MAX as u64 {
            Some(seq![x as u32])
        } else {
            None
        },
        TagValue::Rational(n, d) => Some(seq![n, d]),
        TagValue::RationalBig(n, d) => if n <= u32::MAX as u64 && d <= u32::MAX as u64 {
            Some(seq![n as u32, d as u32])
        } else {
            None
        },
        TagValue::Ifd(x) => Some(seq![x]),
        TagValue::IfdBig(x) => if x <= u32::MAX as u64 {
            Some(seq![x as u32])
        } else {
            None
        },
        TagValue::Ascii(s) => Some(s@.map_values(|c: char| c as u32)),
        _ => None,
    }
}

/// The sequence of u64 a value converts to, if any.
pub open spec fn as_u64_seq(v: TagValue) -> Option<Seq<u64>> {
    match v {
        TagValue::List(xs) => u64_elems(xs@),
        TagValue::Byte(x) => Some(seq![x as u64]),
        TagValue::Short(x) => Some(seq![x as u64]),
        TagValue::Unsigned(x) => Some(seq![x as u64]),
        TagValue::UnsignedBig(x) => Some(seq![x]),
        TagValue::Rational(n, d) => Some(seq![n as u64, d as u64]),
        TagValue::RationalBig(n, d) => Some(seq![n, d]),
        TagValue::Ifd(x) => Some(seq![x as u64]),
        TagValue::IfdBig(x) => Some(seq![x]),
        TagValue::Ascii(s) => Some(s@.map_values(|c: char| c as u64)),
        _ => None,
    }
}

/// Flatten a list into i32, expanding signed rationals into their
/// numerator and denominator.
pub open spec fn flat_i32(elems: Seq<TagValue>) -> Option<Seq<i32>>
    decreases elems.len(),
{
    if elems.len() == 0 {
        Some(Seq::empty())
    } else {
        let head: Option<Seq<i32>> = match elems[0] {
            TagValue::SRational(n, d) => Some(seq![n, d]),
            TagValue::SRationalBig(n, d) => if i32::MIN as i64 <= n <= i32::MAX as i64
                && i32::MIN as i64 <= d <= i32::MAX as i64 {
                Some(seq![n as i32, d as i32])
            } else {
                None
            },
            e => match as_i32(e) {
                Some(x) => Some(seq![x]),
                None => None,
            },
        };
        match head {
            Some(h) => match flat_i32(elems.drop_first()) {
                Some(rest) => Some(h + rest),
                None => None,
            },
            None => None,
        }
    }
}

/// Flatten a list into i64, expanding signed rationals into their
/// numerator and denominator.
pub open spec fn flat_i64(elems: Seq<TagValue>) -> Option<Seq<i64>>
    decreases elems.len(),
{
    if elems.len() == 0 {
        Some(Seq::empty())
    } else {
        let head: Option<Seq<i64>> = match elems[0] {
            TagValue::SRational(n, d) => Some(seq![n as i64, d as i64]),
            TagValue::SRationalBig(n, d) => Some(seq![n, d]),
            e => match as_i64(e) {
                Some(x) => Some(seq![x]),
                None => None,
            },
        };
        match head {
            Some(h) => match flat_i64(elems.drop_first()) {
                Some(rest) => Some(h + rest),
                None => None,
            },
            None => None,
        }
    }
}

/// The sequence of i32 a value converts to, if any.
pub open spec fn as_i32_seq(v: TagValue) -> Option<Seq<i32>> {
    match v {
        TagValue::List(xs) => flat_i32(xs@),
        TagValue::SignedByte(x) => Some(seq![x as i32]),
        TagValue::SignedShort(x) => Some(seq![x as i32]),
        TagValue::Signed(x) => Some(seq![x]),
        TagValue::SignedBig(x) => if i32::MIN as i64 <= x <= i32::MAX as i64 {
            Some(seq![x as i32])
        } else {
            None
        },
        TagValue::SRational(n, d) => Some(seq![n, d]),
        TagValue::SRationalBig(n, d) => if i32::MIN as i64 <= n <= i32::MAX as i64 && i32::MIN
            as i64 <= d <= i32::MAX as i64 {
            Some(seq![n as i32, d as i32])
        } else {
            None
        },
        _ => None,
    }
}

/// The sequence of i64 a value converts to, if any.
pub open spec fn as_i64_seq(v: TagValue) -> Option<Seq<i64>> {
    match v {
        TagValue::List(xs) => flat_i64(xs@),
        TagValue::SignedByte(x) => Some(seq![x as i64]),
        TagValue::SignedShort(x) => Some(seq![x as i64]),
        TagValue::Signed(x) => Some(seq![x as i64]),
        TagValue::SignedBig(x) => Some(seq![x]),
        TagValue::SRational(n, d) => Some(seq![n as i64, d as i64]),
        TagValue::SRationalBig(n, d) => Some(seq![n, d]),
        _ => None,
    }
}

/// The sequence of 32-bit float bit patterns a value converts to, if any.
pub open spec fn as_f32_bits_seq(v: TagValue) -> Option<Seq<u32>> {
    match v {
        TagValue::List(xs) => f32_bits_elems(xs@),
        TagValue::Float(x) => Some(seq![x]),
        _ => None,
    }
}

/// The sequence of 64-bit float bit patterns a value converts to, if any.
pub open spec fn as_f64_bits_seq(v: TagValue) -> Option<Seq<u64>> {
    match v {
        TagValue::List(xs) => f64_bits_elems(xs@),
        TagValue::Double(x) => Some(seq![x]),
        _ => None,
    }
}


impl TagValue {
    /// Convert this value into a u8, or report an incompatible variant
    /// with a conversion error.
    pub fn into_u8(self) -> (r: Result<u8, TiffError>)
        ensures
            r == match as_u8(self) {
                Some(x) => Ok::<u8, TiffError>(x),
                None => Err::<u8, TiffError>(TiffError::ValueConversion),
            },
        decreases self,
    {
        let ghost g = self;
        match self {
            TagValue::Byte(x) => Ok(x),
            TagValue::List(xs) => {
                if xs.len() == 1 {
                    let mut xs = xs;
                    let x = xs.pop().unwrap();
                    proof {
                        assert(x == (g->List_0)@[0]);
                        assert(decreases_to!(g => x));
                    }
                    x.into_u8()
                } else {
                    Err(TiffError::ValueConversion)
                }
            },
            _ => Err(TiffError::ValueConversion),
        }
    }

    /// Convert this value into a i8, or report an incompatible variant
    /// with a conversion error.
    pub fn into_i8(self) -> (r: Result<i8, TiffError>)
        ensures
            r == match as_i8(self) {
                Some(x) => Ok::<i8, TiffError>(x),
                None => Err::<i8, TiffError>(TiffError::ValueConversion),
            },
        decreases self,
    {
        let ghost g = self;
        match self {
            TagValue::SignedByte(x) => Ok(x),
            TagValue::List(xs) => {
                if xs.len() == 1 {
                    let mut xs = xs;
                    let x = xs.pop().unwrap();
                    proof {
                        assert(x == (g->List_0)@[0]);
                        assert(decreases_to!(g => x));
                    }
                    x.into_i8()
                } else {
                    Err(TiffError::ValueConversion)
                }
            },
            _ => Err(TiffError::ValueConversion),
        }
    }

    /// Convert this value into a u16, or report an incompatible variant
    /// with a conversion error.
    pub fn into_u16(self) -> (r: Result<u16, TiffError>)
        ensures
            r == match as_u16(self) {
                Some(x) => Ok::<u16, TiffError>(x),
                None => Err::<u16, TiffError>(TiffError::ValueConversion),
            },
        decreases self,
    {
        let ghost g = self;
        match self {
            TagValue::Byte(x) => Ok(x as u16),
            TagValue::Short(x) => Ok(x),
            TagValue::Unsigned(x) => if x <= u16::MAX as u32 {
                Ok(x as u16)
            } else {
                Err(TiffError::ValueConversion)
            },
            TagValue::UnsignedBig(x) => if x <= u16::MAX as u64 {
                Ok(x as u16)
            } else {
                Err(TiffError::ValueConversion)
            },
            TagValue::List(xs) => {
                if xs.len() == 1 {
                    let mut xs = xs;
                    let x = xs.pop().unwrap();
                    proof {
                        assert(x == (g->List_0)@[0]);
                        assert(decreases_to!(g => x));
                    }
                    x.into_u16()
                } else {
                    Err(TiffError::ValueConversion)
                }
            },
            _ => Err(TiffError::ValueConversion),
        }
    }

    /// Convert this value into a i16, or report an incompatible variant
    /// with a conversion error.
    pub fn into_i16(self) -> (r: Result<i16, TiffError>)
        ensures
            r == match as_i16(self) {
                Some(x) => Ok::<i16, TiffError>(x),
                None => Err::<i16, TiffError>(TiffError::ValueConversion),
            },
        decreases self,
    {
        let ghost g = self;
        match self {
            TagValue::SignedByte(x) => Ok(x as i16),
            TagValue::SignedShort(x) => Ok(x),
            TagValue::Signed(x) => if i16::MIN as i32 <= x && x <= i16::MAX as i32 {
                Ok(x as i16)
            } else {
                Err(TiffError::ValueConversion)
            },
            TagValue::SignedBig(x) => if i16::MIN as i64 <= x && x <= i16::MAX as i64 {
                Ok(x as i16)
            } else {
                Err(TiffError::ValueConversion)
            },
            TagValue::List(xs) => {
                if xs.len() == 1 {
                    let mut xs = xs;
                    let x = xs.pop().unwrap();
                    proof {
                        assert(x == (g->List_0)@[0]);
                        assert(decreases_to!(g => x));
                    }
                    x.into_i16()
                } else {
                    Err(TiffError::ValueConversion)
                }
            },
            _ => Err(TiffError::ValueConversion),
        }
    }

    /// Convert this value into a u32, or report an incompatible variant
    /// with a conversion error.
    pub fn into_u32(self) -> (r: Result<u32, TiffError>)
        ensures
            r == match as_u32(self) {
                Some(x) => Ok::<u32, TiffError>(x),
                None => Err::<u32, TiffError>(TiffError::ValueConversion),
            },
        decreases self,
    {
        let ghost g = self;
        match self {
            TagValue::Byte(x) => Ok(x as u32),
            TagValue::Short(x) => Ok(x as u32),
            TagValue::Unsigned(x) => Ok(x),
            TagValue::UnsignedBig(x) => if x <= u32::MAX as u64 {
                Ok(x as u32)
            } else {
                Err(TiffError::ValueConversion)
            },
            TagValue::Ifd(x) => Ok(x),
            TagValue::IfdBig(x) => if x <= u32::MAX as u64 {
                Ok(x as u32)
            } else {
                Err(TiffError::ValueConversion)
            },
            TagValue::List(xs) => {
                if xs.len() == 1 {
                    let mut xs = xs;
                    let x = xs.pop().unwrap();
                    proof {
                        assert(x == (g->List_0)@[0]);
                        assert(decreases_to!(g => x));
                    }
                    x.into_u32()
                } else {
                    Err(TiffError::ValueConversion)
                }
            },
            _ => Err(TiffError::ValueConversion),
        }
    }

    /// Convert this value into a i32, or report an incompatible variant
    /// with a conversion error.
    pub fn into_i32(self) -> (r: Result<i32, TiffError>)
        ensures
            r == match as_i32(self) {
                Some(x) => Ok::<i32, TiffError>(x),
                None => Err::<i32, TiffError>(TiffError::ValueConversion),
            },
        decreases self,
    {
        let ghost g = self;
        match self {
            TagValue::SignedByte(x) => Ok(x as i32),
            TagValue::SignedShort(x) => Ok(x as i32),
            TagValue::Signed(x) => Ok(x),
            TagValue::SignedBig(x) => if i32::MIN as i64 <= x && x <= i32::MAX as i64 {
                Ok(x as i32)
            } else {
                Err(TiffError::ValueConversion)
            },
            TagValue::List(xs) => {
                if xs.len() == 1 {
                    let mut xs = xs;
                    let x = xs.pop().unwrap();
                    proof {
                        assert(x == (g->List_0)@[0]);
                        assert(decreases_to!(g => x));
                    }
                    x.into_i32()
                } else {
                    Err(TiffError::ValueConversion)
                }
            },
            _ => Err(TiffError::ValueConversion),
        }
    }

    /// Convert this value into a u64, or report an incompatible variant
    /// with a conversion error.
    pub fn into_u64(self) -> (r: Result<u64, TiffError>)
        ensures
            r == match as_u64(self) {
                Some(x) => Ok::<u64, TiffError>(x),
                None => Err::<u64, TiffError>(TiffError::ValueConversion),
            },
        decreases self,
    {
        let ghost g = self;
        match self {
            TagValue::Byte(x) => Ok(x as u64),
            TagValue::Short(x) => Ok(x as u64),
            TagValue::Unsigned(x) => Ok(x as u64),
            TagValue::UnsignedBig(x) => Ok(x),
            TagValue::Ifd(x) => Ok(x as u64),
            TagValue::IfdBig(x) => Ok(x),
            TagValue::List(xs) => {
                if xs.len() == 1 {
                    let mut xs = xs;
                    let x = xs.pop().unwrap();
                    proof {
                        assert(x == (g->List_0)@[0]);
                        assert(decreases_to!(g => x));
                    }
                    x.into_u64()
                } else {
                    Err(TiffError::ValueConversion)
                }
            },
            _ => Err(TiffError::ValueConversion),
        }
    }

    /// Convert this value into a i64, or report an incompatible variant
    /// with a conversion error.
    pub fn into_i64(self) -> (r: Result<i64, TiffError>)
        ensures
            r == match as_i64(self) {
                Some(x) => Ok::<i64, TiffError>(x),
                None => Err::<i64, TiffError>(TiffError::ValueConversion),
            },
        decreases self,
    {
        let ghost g = self;
        match self {
            TagValue::SignedByte(x) => Ok(x as i64),
            TagValue::SignedShort(x) => Ok(x as i64),
            TagValue::Signed(x) => Ok(x as i64),
            TagValue::SignedBig(x) => Ok(x),
            TagValue::List(xs) => {
                if xs.len() == 1 {
                    let mut xs = xs;
                    let x = xs.pop().unwrap();
                    proof {
                        assert(x == (g->List_0)@[0]);
                        assert(decreases_to!(g => x));
                    }
                    x.into_i64()
                } else {
                    Err(TiffError::ValueConversion)
                }
            },
            _ => Err(TiffError::ValueConversion),
        }
    }

    /// The raw bit pattern of a 32-bit float value, or a conversion error.
    pub fn into_f32_bits(self) -> (r: Result<u32, TiffError>)
        ensures
            r == match as_f32_bits(self) {
                Some(x) => Ok::<u32, TiffError>(x),
                None => Err::<u32, TiffError>(TiffError::ValueConversion),
            },
    {
        match self {
            TagValue::Float(x) => Ok(x),
            _ => Err(TiffError::ValueConversion),
        }
    }

    /// The raw bit pattern of a 64-bit float value, or a conversion error.
    pub fn into_f64_bits(self) -> (r: Result<u64, TiffError>)
        ensures
            r == match as_f64_bits(self) {
                Some(x) => Ok::<u64, TiffError>(x),
                None => Err::<u64, TiffError>(TiffError::ValueConversion),
            },
    {
        match self {
            TagValue::Double(x) => Ok(x),
            _ => Err(TiffError::ValueConversion),
        }
    }

    /// The string a value holds, or a conversion error.
    pub fn into_string(self) -> (r: Result<String, TiffError>)
        ensures
            (match as_string(self) {
                Some(s) => r matches Ok(v) && v@ == s,
                None => r == Err::<String, TiffError>(TiffError::ValueConversion),
            }),
    {
        match self {
            TagValue::Ascii(s) => Ok(s),
            _ => Err(TiffError::ValueConversion),
        }
    }

    /// Convert this value into a vector of u8, or report an
    /// incompatible variant with a conversion error.
    #[verifier::loop_isolation(false)]
    pub fn into_u8_vec(self) -> (r: Result<Vec<u8>, TiffError>)
        ensures
            (match as_u8_seq(self) {
                Some(s) => r matches Ok(v) && v@ == s,
                None => r == Err::<Vec<u8>, TiffError>(TiffError::ValueConversion),
            }),
    {
        match self {
            TagValue::List(vec) => {
                let ghost orig = vec@;
                let mut xs = vec;
                let mut out: Vec<u8> = Vec::new();
                while xs.len() > 0
                    invariant
                        (match u8_elems(xs@) {
                            Some(rest) => u8_elems(orig) == Some(out@ + rest),
                            None => u8_elems(orig) is None,
                        }),
                    decreases xs@.len(),
                {
                    let ghost pre = xs@;
                    let ghost pre_out = out@;
                    let v = xs.remove(0);
                    proof {
                        assert(pre.drop_first() =~= xs@);
                    }
                    match v.into_u8() {
                        Ok(x) => {
                            out.push(x);
                            proof {
                                match u8_elems(xs@) {
                                    Some(rest) => {
                                        assert(pre_out + (seq![x] + rest) =~= out@ + rest);
                                    },
                                    None => {},
                                }
                            }
                        },
                        Err(e) => {
                            return Err(e);
                        },
                    }
                }
                proof {
                    match u8_elems(orig) {
                        Some(s) => {
                            assert(out@ + Seq::<u8>::empty() =~= out@);
                        },
                        None => {},
                    }
                }
                Ok(out)
            },
            TagValue::Byte(x) => Ok(vec![x]),
            _ => Err(TiffError::ValueConversion),
        }
    }

    /// Convert this value into a vector of u16, or report an
    /// incompatible variant with a conversion error.
    #[verifier::loop_isolation(false)]
    pub fn into_u16_vec(self) -> (r: Result<Vec<u16>, TiffError>)
        ensures
            (match as_u16_seq(self) {
                Some(s) => r matches Ok(v) && v@ == s,
                None => r == Err::<Vec<u16>, TiffError>(TiffError::ValueConversion),
            }),
    {
        match self {
            TagValue::List(vec) => {
                let ghost orig = vec@;
                let mut xs = vec;
                let mut out: Vec<u16> = Vec::new();
                while xs.len() > 0
                    invariant
                        (match u16_elems(xs@) {
                            Some(rest) => u16_elems(orig) == Some(out@ + rest),
                            None => u16_elems(orig) is None,
                        }),
                    decreases xs@.len(),
                {
                    let ghost pre = xs@;
                    let ghost pre_out = out@;
                    let v = xs.remove(0);
                    proof {
                        assert(pre.drop_first() =~= xs@);
                    }
                    match v.into_u16() {
                        Ok(x) => {
                            out.push(x);
                            proof {
                                match u16_elems(xs@) {
                                    Some(rest) => {
                                        assert(pre_out + (seq![x] + rest) =~= out@ + rest);
                                    },
                                    None => {},
                                }
                            }
                        },
                        Err(e) => {
                            return Err(e);
                        },
                    }
                }
                proof {
                    match u16_elems(orig) {
                        Some(s) => {
                            assert(out@ + Seq::<u16>::empty() =~= out@);
                        },
                        None => {},
                    }
                }
                Ok(out)
            },
            TagValue::Byte(x) => Ok(vec![x as u16]),
            TagValue::Short(x) => Ok(vec![x]),
            _ => Err(TiffError::ValueConversion),
        }
    }

    /// Convert this value into a vector of u32, or report an
    /// incompatible variant with a conversion error.
    #[verifier::loop_isolation(false)]
    pub fn into_f32_bits_vec(self) -> (r: Result<Vec<u32>, TiffError>)
        ensures
            (match as_f32_bits_seq(self) {
                Some(s) => r matches Ok(v) && v@ == s,
                None => r == Err::<Vec<u32>, TiffError>(TiffError::ValueConversion),
            }),
    {
        match self {
            TagValue::List(vec) => {
                let ghost orig = vec@;
                let mut xs = vec;
                let mut out: Vec<u32> = Vec::new();
                while xs.len() > 0
                    invariant
                        (match f32_bits_elems(xs@) {
                            Some(rest) => f32_bits_elems(orig) == Some(out@ + rest),
                            None => f32_bits_elems(orig) is None,
                        }),
                    decreases xs@.len(),
                {
                    let ghost pre = xs@;
                    let ghost pre_out = out@;
                    let v = xs.remove(0);
                    proof {
                        assert(pre.drop_first() =~= xs@);
                    }
                    match v.into_f32_bits() {
                        Ok(x) => {
                            out.push(x);
                            proof {
                                match f32_bits_elems(xs@) {
                                    Some(rest) => {
                                        assert(pre_out + (seq![x] + rest) =~= out@ + rest);
                                    },
                                    None => {},
                                }
                            }
                        },
                        Err(e) => {
                            return Err(e);
                        },
                    }
                }
                proof {
                    match f32_bits_elems(orig) {
                        Some(s) => {
                            assert(out@ + Seq::<u32>::empty() =~= out@);
                        },
                        None => {},
                    }
                }
                Ok(out)
            },
            TagValue::Float(x) => Ok(vec![x]),
            _ => Err(TiffError::ValueConversion),
        }
    }

    /// Convert this value into a vector of u64, or report an
    /// incompatible variant with a conversion error.
    #[verifier::loop_isolation(false)]
    pub fn into_f64_bits_vec(self) -> (r: Result<Vec<u64>, TiffError>)
        ensures
            (match as_f64_bits_seq(self) {
                Some(s) => r matches Ok(v) && v@ == s,
                None => r == Err::<Vec<u64>, TiffError>(TiffError::ValueConversion),
            }),
    {
        match self {
            TagValue::List(vec) => {
                let ghost orig = vec@;
                let mut xs = vec;
                let mut out: Vec<u64> = Vec::new();
                while xs.len() > 0
                    invariant
                        (match f64_bits_elems(xs@) {
                            Some(rest) => f64_bits_elems(orig) == Some(out@ + rest),
                            None => f64_bits_elems(orig) is None,
                        }),
                    decreases xs@.len(),
                {
                    let ghost pre = xs@;
                    let ghost pre_out = out@;
                    let v = xs.remove(0);
                    proof {
                        assert(pre.drop_first() =~= xs@);
                    }
                    match v.into_f64_bits() {
                        Ok(x) => {
                            out.push(x);
                            proof {
                                match f64_bits_elems(xs@) {
                                    Some(rest) => {
                                        assert(pre_out + (seq![x] + rest) =~= out@ + rest);
                                    },
                                    None => {},
                                }
                            }
                        },
                        Err(e) => {
                            return Err(e);
                        },
                    }
                }
                proof {
                    match f64_bits_elems(orig) {
                        Some(s) => {
                            assert(out@ + Seq::<u64>::empty() =~= out@);
                        },
                        None => {},
                    }
                }
                Ok(out)
            },
            TagValue::Double(x) => Ok(vec![x]),
            _ => Err(TiffError::ValueConversion),
        }
    }


    /// Convert this value into a vector of u32: a list element-wise, a
    /// rational as its two components, a string as its characters.
    #[verifier::loop_isolation(false)]
    pub fn into_u32_vec(self) -> (r: Result<Vec<u32>, TiffError>)
        ensures
            (match as_u32_seq(self) {
                Some(s) => r matches Ok(v) && v@ == s,
                None => r == Err::<Vec<u32>, TiffError>(TiffError::ValueConversion),
            }),
    {
        match self {
            TagValue::List(vec) => {
                let ghost orig = vec@;
                let mut xs = vec;
                let mut out: Vec<u32> = Vec::new();
                while xs.len() > 0
                    invariant
                        (match u32_elems(xs@) {
                            Some(rest) => u32_elems(orig) == Some(out@ + rest),
                            None => u32_elems(orig) is None,
                        }),
                    decreases xs@.len(),
                {
                    let ghost pre = xs@;
                    let ghost pre_out = out@;
                    let v = xs.remove(0);
                    proof {
                        assert(pre.drop_first() =~= xs@);
                    }
                    match v.into_u32() {
                        Ok(x) => {
                            out.push(x);
                            proof {
                                match u32_elems(xs@) {
                                    Some(rest) => {
                                        assert(pre_out + (seq![x] + rest) =~= out@ + rest);
                                    },
                                    None => {},
                                }
                            }
                        },
                        Err(e) => {
                            return Err(e);
                        },
                    }
                }
                proof {
                    match u32_elems(orig) {
                        Some(s) => {
                            assert(out@ + Seq::<u32>::empty() =~= out@);
                        },
                        None => {},
                    }
                }
                Ok(out)
            },
            TagValue::Byte(x) => Ok(vec![x as u32]),
            TagValue::Short(x) => Ok(vec![x as u32]),
            TagValue::Unsigned(x) => Ok(vec![x]),
            TagValue::UnsignedBig(x) => if x <= u32::MAX as u64 {
                Ok(vec![x as u32])
            } else {
                Err(TiffError::ValueConversion)
            },
            TagValue::Rational(n, d) => Ok(vec![n, d]),
            TagValue::RationalBig(n, d) => if n <= u32::MAX as u64 && d <= u32::MAX as u64 {
                Ok(vec![n as u32, d as u32])
            } else {
                Err(TiffError::ValueConversion)
            },
            TagValue::Ifd(x) => Ok(vec![x]),
            TagValue::IfdBig(x) => if x <= u32::MAX as u64 {
                Ok(vec![x as u32])
            } else {
                Err(TiffError::ValueConversion)
            },
            TagValue::Ascii(s) => Ok(chars_to_u32(&s)),
            _ => Err(TiffError::ValueConversion),
        }
    }

    /// Convert this value into a vector of u64: a list element-wise, a
    /// rational as its two components, a string as its characters.
    #[verifier::loop_isolation(false)]
    pub fn into_u64_vec(self) -> (r: Result<Vec<u64>, TiffError>)
        ensures
            (match as_u64_seq(self) {
                Some(s) => r matches Ok(v) && v@ == s,
                None => r == Err::<Vec<u64>, TiffError>(TiffError::ValueConversion),
            }),
    {
        match self {
            TagValue::List(vec) => {
                let ghost orig = vec@;
                let mut xs = vec;
                let mut out: Vec<u64> = Vec::new();
                while xs.len() > 0
                    invariant
                        (match u64_elems(xs@) {
                            Some(rest) => u64_elems(orig) == Some(out@ + rest),
                            None => u64_elems(orig) is None,
                        }),
                    decreases xs@.len(),
                {
                    let ghost pre = xs@;
                    let ghost pre_out = out@;
                    let v = xs.remove(0);
                    proof {
                        assert(pre.drop_first() =~= xs@);
                    }
                    match v.into_u64() {
                        Ok(x) => {
                            out.push(x);
                            proof {
                                match u64_elems(xs@) {
                                    Some(rest) => {
                                        assert(pre_out + (seq![x] + rest) =~= out@ + rest);
                                    },
                                    None => {},
                                }
                            }
                        },
                        Err(e) => {
                            return Err(e);
                        },
                    }
                }
                proof {
                    match u64_elems(orig) {
                        Some(s) => {
                            assert(out@ + Seq::<u64>::empty() =~= out@);
                        },
                        None => {},
                    }
                }
                Ok(out)
            },
            TagValue::Byte(x) => Ok(vec![x as u64]),
            TagValue::Short(x) => Ok(vec![x as u64]),
            TagValue::Unsigned(x) => Ok(vec![x as u64]),
            TagValue::UnsignedBig(x) => Ok(vec![x]),
            TagValue::Rational(n, d) => Ok(vec![n as u64, d as u64]),
            TagValue::RationalBig(n, d) => Ok(vec![n, d]),
            TagValue::Ifd(x) => Ok(vec![x as u64]),
            TagValue::IfdBig(x) => Ok(vec![x]),
            TagValue::Ascii(s) => Ok(chars_to_u64(&s)),
            _ => Err(TiffError::ValueConversion),
        }
    }

    /// Convert this value into a vector of i32, expanding signed rationals
    /// into their numerator and denominator.
    #[verifier::loop_isolation(false)]
    pub fn into_i32_vec(self) -> (r: Result<Vec<i32>, TiffError>)
        ensures
            (match as_i32_seq(self) {
                Some(s) => r matches Ok(v) && v@ == s,
                None => r == Err::<Vec<i32>, TiffError>(TiffError::ValueConversion),
            }),
    {
        match self {
            TagValue::List(vec) => {
                let ghost orig = vec@;
                let mut xs = vec;
                let mut out: Vec<i32> = Vec::new();
                while xs.len() > 0
                    invariant
                        (match flat_i32(xs@) {
                            Some(rest) => flat_i32(orig) == Some(out@ + rest),
                            None => flat_i32(orig) is None,
                        }),
                    decreases xs@.len(),
                {
                    let ghost pre = xs@;
                    let ghost pre_out = out@;
                    let v = xs.remove(0);
                    proof {
                        assert(pre.drop_first() =~= xs@);
                    }
                    match v {
                        TagValue::SRational(n, d) => {
                            out.push(n);
                            out.push(d);
                            proof {
                                match flat_i32(xs@) {
                                    Some(rest) => {
                                        assert(pre_out + (seq![n, d] + rest) =~= out@ + rest);
                                    },
                                    None => {},
                                }
                            }
                        },
                        TagValue::SRationalBig(n, d) => {
                            if i32::MIN as i64 <= n && n <= i32::MAX as i64 && i32::MIN as i64 <= d
                                && d <= i32::MAX as i64 {
                                out.push(n as i32);
                                out.push(d as i32);
                                proof {
                                    match flat_i32(xs@) {
                                        Some(rest) => {
                                            assert(pre_out + (seq![n as i32, d as i32] + rest)
                                                =~= out@ + rest);
                                        },
                                        None => {},
                                    }
                                }
                            } else {
                                return Err(TiffError::ValueConversion);
                            }
                        },
                        other => {
                            match other.into_i32() {
                                Ok(x) => {
                                    out.push(x);
                                    proof {
                                        match flat_i32(xs@) {
                                            Some(rest) => {
                                                assert(pre_out + (seq![x] + rest) =~= out@ + rest);
                                            },
                                            None => {},
                                        }
                                    }
                                },
                                Err(e) => {
                                    return Err(e);
                                },
                            }
                        },
                    }
                }
                proof {
                    match flat_i32(orig) {
                        Some(s) => {
                            assert(out@ + Seq::<i32>::empty() =~= out@);
                        },
                        None => {},
                    }
                }
                Ok(out)
            },
            TagValue::SignedByte(x) => Ok(vec![x as i32]),
            TagValue::SignedShort(x) => Ok(vec![x as i32]),
            TagValue::Signed(x) => Ok(vec![x]),
            TagValue::SignedBig(x) => if i32::MIN as i64 <= x && x <= i32::MAX as i64 {
                Ok(vec![x as i32])
            } else {
                Err(TiffError::ValueConversion)
            },
            TagValue::SRational(n, d) => Ok(vec![n, d]),
            TagValue::SRationalBig(n, d) => if i32::MIN as i64 <= n && n <= i32::MAX as i64
                && i32::MIN as i64 <= d && d <= i32::MAX as i64 {
                Ok(vec![n as i32, d as i32])
            } else {
                Err(TiffError::ValueConversion)
            },
            _ => Err(TiffError::ValueConversion),
        }
    }

    /// Convert this value into a vector of i64, expanding signed rationals
    /// into their numerator and denominator.
    #[verifier::loop_isolation(false)]
    pub fn into_i64_vec(self) -> (r: Result<Vec<i64>, TiffError>)
        ensures
            (match as_i64_seq(self) {
                Some(s) => r matches Ok(v) && v@ == s,
                None => r == Err::<Vec<i64>, TiffError>(TiffError::ValueConversion),
            }),
    {
        match self {
            TagValue::List(vec) => {
                let ghost orig = vec@;
                let mut xs = vec;
                let mut out: Vec<i64> = Vec::new();
                while xs.len() > 0
                    invariant
                        (match flat_i64(xs@) {
                            Some(rest) => flat_i64(orig) == Some(out@ + rest),
                            None => flat_i64(orig) is None,
                        }),
                    decreases xs@.len(),
                {
                    let ghost pre = xs@;
                    let ghost pre_out = out@;
                    let v = xs.remove(0);
                    proof {
                        assert(pre.drop_first() =~= xs@);
                    }
                    match v {
                        TagValue::SRational(n, d) => {
                            out.push(n as i64);
                            out.push(d as i64);
                            proof {
                                match flat_i64(xs@) {
                                    Some(rest) => {
                                        assert(pre_out + (seq![n as i64, d as i64] + rest) =~= out@
                                            + rest);
                                    },
                                    None => {},
                                }
                            }
                        },
                        TagValue::SRationalBig(n, d) => {
                            out.push(n);
                            out.push(d);
                            proof {
                                match flat_i64(xs@) {
                                    Some(rest) => {
                                        assert(pre_out + (seq![n, d] + rest) =~= out@ + rest);
                                    },
                                    None => {},
                                }
                            }
                        },
                        other => {
                            match other.into_i64() {
                                Ok(x) => {
                                    out.push(x);
                                    proof {
                                        match flat_i64(xs@) {
                                            Some(rest) => {
                                                assert(pre_out + (seq![x] + rest) =~= out@ + rest);
                                            },
                                            None => {},
                                        }
                                    }
                                },
                                Err(e) => {
                                    return Err(e);
                                },
                            }
                        },
                    }
                }
                proof {
                    match flat_i64(orig) {
                        Some(s) => {
                            assert(out@ + Seq::<i64>::empty() =~= out@);
                        },
                        None => {},
                    }
                }
                Ok(out)
            },
            TagValue::SignedByte(x) => Ok(vec![x as i64]),
            TagValue::SignedShort(x) => Ok(vec![x as i64]),
            TagValue::Signed(x) => Ok(vec![x as i64]),
            TagValue::SignedBig(x) => Ok(vec![x]),
            TagValue::SRational(n, d) => Ok(vec![n as i64, d as i64]),
            TagValue::SRationalBig(n, d) => Ok(vec![n, d]),
            _ => Err(TiffError::ValueConversion),
        }
    }
}

/// The characters of a string, each widened to u32.
#[verifier::loop_isolation(false)]
fn chars_to_u32(s: &String) -> (r: Vec<u32>)
    ensures
        r@ == s@.map_values(|c: char| c as u32),
{
    let n = s.as_str().unicode_len();
    let mut out: Vec<u32> = Vec::new();
    let mut i: usize = 0;
    while i < n
        invariant
            n == s@.len(),
            i <= n,
            out@.len() == i,
            forall|j: int| 0 <= j < i ==> out@[j] == s@[j] as u32,
        decreases n - i,
    {
        let c = s.as_str().get_char(i);
        out.push(c as u32);
        i = i + 1;
    }
    proof {
        assert(out@ =~= s@.map_values(|c: char| c as u32));
    }
    out
}

/// The characters of a string, each widened to u64.
#[verifier::loop_isolation(false)]
fn chars_to_u64(s: &String) -> (r: Vec<u64>)
    ensures
        r@ == s@.map_values(|c: char| c as u64),
{
    let n = s.as_str().unicode_len();
    let mut out: Vec<u64> = Vec::new();
    let mut i: usize = 0;
    while i < n
        invariant
            n == s@.len(),
            i <= n,
            out@.len() == i,
            forall|j: int| 0 <= j < i ==> out@[j] == s@[j] as u64,
        decreases n - i,
    {
        let c = s.as_str().get_char(i);
        out.push(c as u64);
        i = i + 1;
    }
    proof {
        assert(out@ =~= s@.map_values(|c: char| c as u64));
    }
    out
}

/// A singleton list narrows to u8 exactly as its one element does.
pub proof fn lemma_as_u8_singleton(xs: Vec<TagValue>)
    requires
        xs@.len() == 1,
    ensures
        as_u8(TagValue::List(xs)) == as_u8(xs@[0]),
{
}

/// A singleton list narrows to i8 exactly as its one element does.
pub proof fn lemma_as_i8_singleton(xs: Vec<TagValue>)
    requires
        xs@.len() == 1,
    ensures
        as_i8(TagValue::List(xs)) == as_i8(xs@[0]),
{
}

/// A singleton list narrows to u16 exactly as its one element does.
pub proof fn lemma_as_u16_singleton(xs: Vec<TagValue>)
    requires
        xs@.len() == 1,
    ensures
        as_u16(TagValue::List(xs)) == as_u16(xs@[0]),
{
}

/// A singleton list narrows to i16 exactly as its one element does.
pub proof fn lemma_as_i16_singleton(xs: Vec<TagValue>)
    requires
        xs@.len() == 1,
    ensures
        as_i16(TagValue::List(xs)) == as_i16(xs@[0]),
{
}

/// A singleton list narrows to u32 exactly as its one element does.
pub proof fn lemma_as_u32_singleton(xs: Vec<TagValue>)
    requires
        xs@.len() == 1,
    ensures
        as_u32(TagValue::List(xs)) == as_u32(xs@[0]),
{
}

/// A singleton list narrows to i32 exactly as its one element does.
pub proof fn lemma_as_i32_singleton(xs: Vec<TagValue>)
    requires
        xs@.len() == 1,
    ensures
        as_i32(TagValue::List(xs)) == as_i32(xs@[0]),
{
}

/// A singleton list narrows to u64 exactly as its one element does.
pub proof fn lemma_as_u64_singleton(xs: Vec<TagValue>)
    requires
        xs@.len() == 1,
    ensures
        as_u64(TagValue::List(xs)) == as_u64(xs@[0]),
{
}

/// A singleton list narrows to i64 exactly as its one element does.
pub proof fn lemma_as_i64_singleton(xs: Vec<TagValue>)
    requires
        xs@.len() == 1,
    ensures
        as_i64(TagValue::List(xs)) == as_i64(xs@[0]),
{
}

} // verus!
