//! Typed pixel buffers: the element types a TIFF can hold, a discriminated
//! numeric buffer, and the shaped array a decoded tile becomes.

use vstd::arithmetic::power2::pow2;
use vstd::prelude::*;

use crate::cursor::{sint_at, uint_at, Endianness};
use crate::error::TiffError;
use crate::predictor::load_sample;
use crate::tags::SampleFormat;

verus! {

/// The element type of a decoded array.
#[derive(Debug, Clone, Copy, PartialEq, Eq, Structural, Hash)]
pub enum DataType {
    /// One-bit mask data, one byte per pixel after unpacking.
    Bool,
    /// Unsigned 8-bit integer.
    UInt8,
    /// Unsigned 16-bit integer.
    UInt16,
    /// Unsigned 32-bit integer.
    UInt32,
    /// Unsigned 64-bit integer.
    UInt64,
    /// Signed 8-bit integer.
    Int8,
    /// Signed 16-bit integer.
    Int16,
    /// Signed 32-bit integer.
    Int32,
    /// Signed 64-bit integer.
    Int64,
    /// 32-bit floating point, carried as IEEE bit patterns.
    Float32,
    /// 64-bit floating point, carried as IEEE bit patterns.
    Float64,
}

/// The size in bytes of one element of each data type; mask pixels take
/// one byte once unpacked.
pub open spec fn sp_data_type_size(t: DataType) -> int {
    match t {
        DataType::Bool | DataType::UInt8 | DataType::Int8 => 1,
        DataType::UInt16 | DataType::Int16 => 2,
        DataType::UInt32 | DataType::Int32 | DataType::Float32 => 4,
        DataType::UInt64 | DataType::Int64 | DataType::Float64 => 8,
    }
}

/// The data type a sample format and bit depth pair denotes, when every
/// sample agrees and the combination is supported.
pub open spec fn sp_data_type_from(sf: Seq<SampleFormat>, bps: Seq<u16>) -> Option<DataType> {
    if sf.len() == 0 || bps.len() == 0 {
        None
    } else if !(forall|i: int| 0 <= i < sf.len() ==> #[trigger] sf[i] == sf[0]) {
        None
    } else if !(forall|i: int| 0 <= i < bps.len() ==> #[trigger] bps[i] == bps[0]) {
        None
    } else {
        match (sf[0], bps[0]) {
            (SampleFormat::Uint, 1) => Some(DataType::Bool),
            (SampleFormat::Uint, 8) => Some(DataType::UInt8),
            (SampleFormat::Uint, 16) => Some(DataType::UInt16),
            (SampleFormat::Uint, 32) => Some(DataType::UInt32),
            (SampleFormat::Uint, 64) => Some(DataType::UInt64),
            (SampleFormat::Int, 8) => Some(DataType::Int8),
            (SampleFormat::Int, 16) => Some(DataType::Int16),
            (SampleFormat::Int, 32) => Some(DataType::Int32),
            (SampleFormat::Int, 64) => Some(DataType::Int64),
            (SampleFormat::Float, 32) => Some(DataType::Float32),
            (SampleFormat::Float, 64) => Some(DataType::Float64),
            _ => None,
        }
    }
}

impl DataType {
    /// The size in bytes of one element of this type.
    pub fn size(&self) -> (r: usize)
        ensures
            r == sp_data_type_size(*self),
    {
        match self {
            DataType::Bool | DataType::UInt8 | DataType::Int8 => 1,
            DataType::UInt16 | DataType::Int16 => 2,
            DataType::UInt32 | DataType::Int32 | DataType::Float32 => 4,
            DataType::UInt64 | DataType::Int64 | DataType::Float64 => 8,
        }
    }

    /// The element type named by the sample format and bit depth tags of
    /// a directory, or `None` when the samples disagree or the
    /// combination is unsupported.
    #[verifier::loop_isolation(false)]
    pub fn from_tags(sample_format: &Vec<SampleFormat>, bits_per_sample: &Vec<u16>) -> (r: Option<
        DataType,
    >)
        ensures
            r == sp_data_type_from(sample_format@, bits_per_sample@),
    {
        if sample_format.len() == 0 || bits_per_sample.len() == 0 {
            return None;
        }
        let first_format = sample_format[0];
        let first_bits = bits_per_sample[0];
        let mut i: usize = 1;
        while i < sample_format.len()
            invariant
                1 <= i <= sample_format@.len(),
                forall|j: int| 0 <= j < i ==> #[trigger] sample_format@[j] == sample_format@[0],
            decreases sample_format@.len() - i,
        {
            if sample_format[i] != first_format {
                return None;
            }
            i = i + 1;
        }
        let mut k: usize = 1;
        while k < bits_per_sample.len()
            invariant
                1 <= k <= bits_per_sample@.len(),
                forall|j: int| 0 <= j < k ==> #[trigger] bits_per_sample@[j] == bits_per_sample@[0],
            decreases bits_per_sample@.len() - k,
        {
            if bits_per_sample[k] != first_bits {
                return None;
            }
            k = k + 1;
        }
        match (first_format, first_bits) {
            (SampleFormat::Uint, 1) => Some(DataType::Bool),
            (SampleFormat::Uint, 8) => Some(DataType::UInt8),
            (SampleFormat::Uint, 16) => Some(DataType::UInt16),
            (SampleFormat::Uint, 32) => Some(DataType::UInt32),
            (SampleFormat::Uint, 64) => Some(DataType::UInt64),
            (SampleFormat::Int, 8) => Some(DataType::Int8),
            (SampleFormat::Int, 16) => Some(DataType::Int16),
            (SampleFormat::Int, 32) => Some(DataType::Int32),
            (SampleFormat::Int, 64) => Some(DataType::Int64),
            (SampleFormat::Float, 32) => Some(DataType::Float32),
            (SampleFormat::Float, 64) => Some(DataType::Float64),
            _ => None,
        }
    }
}

/// A discriminated numeric buffer: one variant per element type. Float
/// elements are carried as their IEEE bit patterns; mask data holds one
/// byte per pixel.
#[derive(Debug, PartialEq)]
pub enum TypedArray {
    /// One-bit mask pixels, one byte each, zero or one.
    Bool(Vec<u8>),
    /// Unsigned 8-bit elements.
    UInt8(Vec<u8>),
    /// Unsigned 16-bit elements.
    UInt16(Vec<u16>),
    /// Unsigned 32-bit elements.
    UInt32(Vec<u32>),
    /// Unsigned 64-bit elements.
    UInt64(Vec<u64>),
    /// Signed 8-bit elements.
    Int8(Vec<i8>),
    /// Signed 16-bit elements.
    Int16(Vec<i16>),
    /// Signed 32-bit elements.
    Int32(Vec<i32>),
    /// Signed 64-bit elements.
    Int64(Vec<i64>),
    /// 32-bit float elements, as IEEE bit patterns.
    Float32(Vec<u32>),
    /// 64-bit float elements, as IEEE bit patterns.
    Float64(Vec<u64>),
}

/// The bit of `b` at position `k`, counting the most significant bit as
/// position zero.
pub open spec fn sp_bit_of(b: u8, k: int) -> u8 {
    (((b as int) / pow2((7 - k) as nat) as int) % 2) as u8
}


/// The number of elements the typed parse of `n` raw bytes yields:
/// mask data unpacks eight pixels per byte, every other type one element
/// per element-sized group, dropping a trailing partial element.
pub open spec fn sp_parsed_len(data_type: Option<DataType>, n: int) -> int {
    match data_type {
        None => n,
        Some(t) => match t {
            DataType::Bool => 8 * n,
            DataType::UInt8 | DataType::Int8 => n,
            DataType::UInt16 | DataType::Int16 => n / 2,
            DataType::UInt32 | DataType::Int32 | DataType::Float32 => n / 4,
            DataType::UInt64 | DataType::Int64 | DataType::Float64 => n / 8,
        },
    }
}

/// Whether `r` is the typed parse of raw sample bytes `data` of element
/// type `data_type` in the byte order `en`: bytes pass through for
/// unsigned bytes, mask data unpacks one bit per pixel most significant
/// bit first, and every other type decodes elementwise, dropping a
/// trailing partial element.
pub open spec fn sp_parsed(
    data: Seq<u8>,
    data_type: Option<DataType>,
    en: Endianness,
    r: TypedArray,
) -> bool {
    match data_type {
        None => r matches TypedArray::UInt8(v) && v@ == data,
        Some(DataType::UInt8) => r matches TypedArray::UInt8(v) && v@ == data,
        Some(DataType::Bool) => r matches TypedArray::Bool(v) && v@.len() == 8 * data.len() && (
        forall|i: int| 0 <= i < v@.len() ==> #[trigger] v@[i] == sp_bit_of(data[i / 8], i % 8)),
        Some(DataType::UInt16) => r matches TypedArray::UInt16(v) && v@.len() == data.len() as int
            / 2 && (forall|i: int|
            0 <= i < v@.len() ==> #[trigger] v@[i] as int == uint_at(data, 2 * i, 2, en)),
        Some(DataType::UInt32) => r matches TypedArray::UInt32(v) && v@.len() == data.len() as int
            / 4 && (forall|i: int|
            0 <= i < v@.len() ==> #[trigger] v@[i] as int == uint_at(data, 4 * i, 4, en)),
        Some(DataType::UInt64) => r matches TypedArray::UInt64(v) && v@.len() == data.len() as int
            / 8 && (forall|i: int|
            0 <= i < v@.len() ==> #[trigger] v@[i] as int == uint_at(data, 8 * i, 8, en)),
        Some(DataType::Int8) => r matches TypedArray::Int8(v) && v@.len() == data.len() && (
        forall|i: int| 0 <= i < v@.len() ==> #[trigger] v@[i] as int == sint_at(data, i, 1, en)),
        Some(DataType::Int16) => r matches TypedArray::Int16(v) && v@.len() == data.len() as int
            / 2 && (forall|i: int|
            0 <= i < v@.len() ==> #[trigger] v@[i] as int == sint_at(data, 2 * i, 2, en)),
        Some(DataType::Int32) => r matches TypedArray::Int32(v) && v@.len() == data.len() as int
            / 4 && (forall|i: int|
            0 <= i < v@.len() ==> #[trigger] v@[i] as int == sint_at(data, 4 * i, 4, en)),
        Some(DataType::Int64) => r matches TypedArray::Int64(v) && v@.len() == data.len() as int
            / 8 && (forall|i: int|
            0 <= i < v@.len() ==> #[trigger] v@[i] as int == sint_at(data, 8 * i, 8, en)),
        Some(DataType::Float32) => r matches TypedArray::Float32(v) && v@.len()
            == data.len() as int / 4 && (forall|i: int|
            0 <= i < v@.len() ==> #[trigger] v@[i] as int == uint_at(data, 4 * i, 4, en)),
        Some(DataType::Float64) => r matches TypedArray::Float64(v) && v@.len()
            == data.len() as int / 8 && (forall|i: int|
            0 <= i < v@.len() ==> #[trigger] v@[i] as int == uint_at(data, 8 * i, 8, en)),
    }
}

impl TypedArray {
    /// Whether this buffer holds the given element type.
    pub open spec fn sp_matches(self, t: DataType) -> bool {
        match (self, t) {
            (TypedArray::Bool(_), DataType::Bool) => true,
            (TypedArray::UInt8(_), DataType::UInt8) => true,
            (TypedArray::UInt16(_), DataType::UInt16) => true,
            (TypedArray::UInt32(_), DataType::UInt32) => true,
            (TypedArray::UInt64(_), DataType::UInt64) => true,
            (TypedArray::Int8(_), DataType::Int8) => true,
            (TypedArray::Int16(_), DataType::Int16) => true,
            (TypedArray::Int32(_), DataType::Int32) => true,
            (TypedArray::Int64(_), DataType::Int64) => true,
            (TypedArray::Float32(_), DataType::Float32) => true,
            (TypedArray::Float64(_), DataType::Float64) => true,
            _ => false,
        }
    }

    /// The number of elements held.
    pub open spec fn sp_len(self) -> int {
        match self {
            TypedArray::Bool(v) => v@.len() as int,
            TypedArray::UInt8(v) => v@.len() as int,
            TypedArray::UInt16(v) => v@.len() as int,
            TypedArray::UInt32(v) => v@.len() as int,
            TypedArray::UInt64(v) => v@.len() as int,
            TypedArray::Int8(v) => v@.len() as int,
            TypedArray::Int16(v) => v@.len() as int,
            TypedArray::Int32(v) => v@.len() as int,
            TypedArray::Int64(v) => v@.len() as int,
            TypedArray::Float32(v) => v@.len() as int,
            TypedArray::Float64(v) => v@.len() as int,
        }
    }

    /// Parse a typed buffer out of raw sample bytes in the byte order
    /// `en`. Data without a declared type is unsigned bytes; mask data is
    /// unpacked one bit per pixel, most significant bit first. Trailing
    /// bytes of a partial element are dropped.
    #[verifier::loop_isolation(false)]
    #[verifier::rlimit(60)]
    pub fn new(data: Vec<u8>, data_type: Option<DataType>, en: Endianness) -> (r: TypedArray)
        ensures
            (match data_type {
                None => r matches TypedArray::UInt8(v) && v@ == data@,
                Some(DataType::UInt8) => r matches TypedArray::UInt8(v) && v@ == data@,
                Some(DataType::Bool) => r matches TypedArray::Bool(v) && v@.len() == 8 * data@.len()
                    && (forall|i: int|
                    0 <= i < v@.len() ==> #[trigger] v@[i] == sp_bit_of(
                        data@[i / 8],
                        i % 8,
                    )),
                Some(DataType::UInt16) => r matches TypedArray::UInt16(v) && v@.len()
                    == data@.len() as int / 2 && (forall|i: int|
                    0 <= i < v@.len() ==> #[trigger] v@[i] as int == uint_at(data@, 2 * i, 2, en)),
                Some(DataType::UInt32) => r matches TypedArray::UInt32(v) && v@.len()
                    == data@.len() as int / 4 && (forall|i: int|
                    0 <= i < v@.len() ==> #[trigger] v@[i] as int == uint_at(data@, 4 * i, 4, en)),
                Some(DataType::UInt64) => r matches TypedArray::UInt64(v) && v@.len()
                    == data@.len() as int / 8 && (forall|i: int|
                    0 <= i < v@.len() ==> #[trigger] v@[i] as int == uint_at(data@, 8 * i, 8, en)),
                Some(DataType::Int8) => r matches TypedArray::Int8(v) && v@.len() == data@.len()
                    && (forall|i: int|
                    0 <= i < v@.len() ==> #[trigger] v@[i] as int == sint_at(data@, i, 1, en)),
                Some(DataType::Int16) => r matches TypedArray::Int16(v) && v@.len()
                    == data@.len() as int / 2 && (forall|i: int|
                    0 <= i < v@.len() ==> #[trigger] v@[i] as int == sint_at(data@, 2 * i, 2, en)),
                Some(DataType::Int32) => r matches TypedArray::Int32(v) && v@.len()
                    == data@.len() as int / 4 && (forall|i: int|
                    0 <= i < v@.len() ==> #[trigger] v@[i] as int == sint_at(data@, 4 * i, 4, en)),
                Some(DataType::Int64) => r matches TypedArray::Int64(v) && v@.len()
                    == data@.len() as int / 8 && (forall|i: int|
                    0 <= i < v@.len() ==> #[trigger] v@[i] as int == sint_at(data@, 8 * i, 8, en)),
                Some(DataType::Float32) => r matches TypedArray::Float32(v) && v@.len()
                    == data@.len() as int / 4 && (forall|i: int|
                    0 <= i < v@.len() ==> #[trigger] v@[i] as int == uint_at(data@, 4 * i, 4, en)),
                Some(DataType::Float64) => r matches TypedArray::Float64(v) && v@.len()
                    == data@.len() as int / 8 && (forall|i: int|
                    0 <= i < v@.len() ==> #[trigger] v@[i] as int == uint_at(data@, 8 * i, 8, en)),
            }),
            sp_parsed(data@, data_type, en, r),
    {
        proof {
            vstd::arithmetic::power2::lemma2_to64();
        }
        match data_type {
            None => TypedArray::UInt8(data),
            Some(DataType::UInt8) => TypedArray::UInt8(data),
            Some(DataType::Bool) => {
                let mut out: Vec<u8> = Vec::new();
                let n = data.len();
                let mut i: usize = 0;
                while i < n
                    invariant
                        i <= n,
                        n == data@.len(),
                        out@.len() == 8 * i,
                        forall|k: int|
                            0 <= k < out@.len() ==> #[trigger] out@[k] == sp_bit_of(
                                data@[k / 8],
                                k % 8,
                            ),
                    decreases n - i,
                {
                    let b = data[i];
                    let mut k: usize = 0;
                    while k < 8
                        invariant
                            k <= 8,
                            i < n,
                            n == data@.len(),
                            b == data@[i as int],
                            out@.len() == 8 * i + k,
                            forall|m: int|
                                0 <= m < out@.len() ==> #[trigger] out@[m] == sp_bit_of(
                                    data@[m / 8],
                                    m % 8,
                                ),
                        decreases 8 - k,
                    {
                        let p: u8 = match k {
                            0 => 128,
                            1 => 64,
                            2 => 32,
                            3 => 16,
                            4 => 8,
                            5 => 4,
                            6 => 2,
                            _ => 1,
                        };
                        let bit = (b / p) % 2;
                        proof {
                            assert(p as int == pow2((7 - k) as nat) as int);
                            assert((8 * i + k) / 8 == i && (8 * i + k) % 8 == k)
                                by (nonlinear_arith)
                                requires
                                    0 <= k < 8 && 0 <= i,
                            ;
                        }
                        out.push(bit);
                        k = k + 1;
                    }
                    i = i + 1;
                }
                TypedArray::Bool(out)
            },
            Some(DataType::UInt16) => {
                let v = parse_u64_elems(&data, 2, en);
                let mut out: Vec<u16> = Vec::new();
                let mut i: usize = 0;
                while i < v.len()
                    invariant
                        i <= v@.len(),
                        out@.len() == i,
                        forall|j: int| 0 <= j < v@.len() ==> #[trigger] v@[j] < 65536,
                        forall|j: int| 0 <= j < i ==> #[trigger] out@[j] as int == v@[j] as int,
                    decreases v@.len() - i,
                {
                    out.push(v[i] as u16);
                    i = i + 1;
                }
                TypedArray::UInt16(out)
            },
            Some(DataType::UInt32) => {
                let v = parse_u64_elems(&data, 4, en);
                let mut out: Vec<u32> = Vec::new();
                let mut i: usize = 0;
                while i < v.len()
                    invariant
                        i <= v@.len(),
                        out@.len() == i,
                        forall|j: int| 0 <= j < v@.len() ==> #[trigger] v@[j] < 4294967296,
                        forall|j: int| 0 <= j < i ==> #[trigger] out@[j] as int == v@[j] as int,
                    decreases v@.len() - i,
                {
                    out.push(v[i] as u32);
                    i = i + 1;
                }
                TypedArray::UInt32(out)
            },
            Some(DataType::UInt64) => TypedArray::UInt64(parse_u64_elems(&data, 8, en)),
            Some(DataType::Float32) => {
                let v = parse_u64_elems(&data, 4, en);
                let mut out: Vec<u32> = Vec::new();
                let mut i: usize = 0;
                while i < v.len()
                    invariant
                        i <= v@.len(),
                        out@.len() == i,
                        forall|j: int| 0 <= j < v@.len() ==> #[trigger] v@[j] < 4294967296,
                        forall|j: int| 0 <= j < i ==> #[trigger] out@[j] as int == v@[j] as int,
                    decreases v@.len() - i,
                {
                    out.push(v[i] as u32);
                    i = i + 1;
                }
                TypedArray::Float32(out)
            },
            Some(DataType::Float64) => TypedArray::Float64(parse_u64_elems(&data, 8, en)),
            Some(DataType::Int8) => {
                let v = parse_i64_elems(&data, 1, en);
                let mut out: Vec<i8> = Vec::new();
                let mut i: usize = 0;
                while i < v.len()
                    invariant
                        i <= v@.len(),
                        out@.len() == i,
                        forall|j: int|
                            0 <= j < v@.len() ==> -128 <= #[trigger] v@[j] && v@[j] < 128,
                        forall|j: int| 0 <= j < i ==> #[trigger] out@[j] as int == v@[j] as int,
                    decreases v@.len() - i,
                {
                    out.push(v[i] as i8);
                    i = i + 1;
                }
                TypedArray::Int8(out)
            },
            Some(DataType::Int16) => {
                let v = parse_i64_elems(&data, 2, en);
                let mut out: Vec<i16> = Vec::new();
                let mut i: usize = 0;
                while i < v.len()
                    invariant
                        i <= v@.len(),
                        out@.len() == i,
                        forall|j: int|
                            0 <= j < v@.len() ==> -32768 <= #[trigger] v@[j] && v@[j] < 32768,
                        forall|j: int| 0 <= j < i ==> #[trigger] out@[j] as int == v@[j] as int,
                    decreases v@.len() - i,
                {
                    out.push(v[i] as i16);
                    i = i + 1;
                }
                TypedArray::Int16(out)
            },
            Some(DataType::Int32) => {
                let v = parse_i64_elems(&data, 4, en);
                let mut out: Vec<i32> = Vec::new();
                let mut i: usize = 0;
                while i < v.len()
                    invariant
                        i <= v@.len(),
                        out@.len() == i,
                        forall|j: int|
                            0 <= j < v@.len() ==> -2147483648 <= #[trigger] v@[j] && v@[j]
                                < 2147483648,
                        forall|j: int| 0 <= j < i ==> #[trigger] out@[j] as int == v@[j] as int,
                    decreases v@.len() - i,
                {
                    out.push(v[i] as i32);
                    i = i + 1;
                }
                TypedArray::Int32(out)
            },
            Some(DataType::Int64) => TypedArray::Int64(parse_i64_elems(&data, 8, en)),
        }
    }

    /// The number of elements held.
    pub fn len(&self) -> (r: usize)
        ensures
            r == self.sp_len(),
    {
        match self {
            TypedArray::Bool(v) => v.len(),
            TypedArray::UInt8(v) => v.len(),
            TypedArray::UInt16(v) => v.len(),
            TypedArray::UInt32(v) => v.len(),
            TypedArray::UInt64(v) => v.len(),
            TypedArray::Int8(v) => v.len(),
            TypedArray::Int16(v) => v.len(),
            TypedArray::Int32(v) => v.len(),
            TypedArray::Int64(v) => v.len(),
            TypedArray::Float32(v) => v.len(),
            TypedArray::Float64(v) => v.len(),
        }
    }

    /// Whether the buffer holds no elements.
    pub fn is_empty(&self) -> (r: bool)
        ensures
            r == (self.sp_len() == 0),
    {
        self.len() == 0
    }
}

/// The unsigned elements of `size` bytes each packed into `data`, in the
/// byte order `en`; a trailing partial element is dropped.
#[verifier::loop_isolation(false)]
fn parse_u64_elems(data: &Vec<u8>, size: usize, en: Endianness) -> (r: Vec<u64>)
    requires
        size == 1 || size == 2 || size == 4 || size == 8,
    ensures
        r@.len() == data@.len() as int / (size as int),
        forall|i: int|
            0 <= i < r@.len() ==> #[trigger] r@[i] as int == uint_at(
                data@,
                (size as int) * i,
                size as nat,
                en,
            ),
        forall|i: int|
            0 <= i < r@.len() ==> #[trigger] r@[i] < pow2((8 * size) as nat),
{
    let n = data.len() / size;
    let mut out: Vec<u64> = Vec::new();
    let mut i: usize = 0;
    while i < n
        invariant
            i <= n,
            n == data@.len() as int / (size as int),
            out@.len() == i,
            forall|j: int|
                0 <= j < i ==> #[trigger] out@[j] as int == uint_at(
                    data@,
                    (size as int) * j,
                    size as nat,
                    en,
                ),
            forall|j: int| 0 <= j < i ==> #[trigger] out@[j] < pow2((8 * size) as nat),
        decreases n - i,
    {
        proof {
            assert(i * size + size <= n * size && n * size <= data@.len())
                by (nonlinear_arith)
                requires
                    i < n && size > 0 && n == data@.len() as int / (size as int),
            {
                vstd::arithmetic::div_mod::lemma_fundamental_div_mod(
                    data@.len() as int,
                    size as int,
                );
            }
            crate::cursor::lemma_uint_at_bound(data@, (size as int) * (i as int), size as nat, en);
            assert(i * size == (size as int) * (i as int)) by (nonlinear_arith);
        }
        let v = load_sample(data, i, size, en);
        out.push(v);
        i = i + 1;
    }
    out
}

/// The signed elements of `size` bytes each packed into `data`, in the
/// byte order `en`; a trailing partial element is dropped.
#[verifier::loop_isolation(false)]
fn parse_i64_elems(data: &Vec<u8>, size: usize, en: Endianness) -> (r: Vec<i64>)
    requires
        size == 1 || size == 2 || size == 4 || size == 8,
    ensures
        r@.len() == data@.len() as int / (size as int),
        forall|i: int|
            0 <= i < r@.len() ==> #[trigger] r@[i] as int == sint_at(
                data@,
                (size as int) * i,
                size as nat,
                en,
            ),
        forall|i: int|
            0 <= i < r@.len() ==> -(pow2((8 * size - 1) as nat) as int) <= #[trigger] r@[i]
                && r@[i] < pow2((8 * size - 1) as nat),
{
    proof {
        vstd::arithmetic::power2::lemma2_to64();
        vstd::arithmetic::power2::lemma2_to64_rest();
    }
    let us = parse_u64_elems(data, size, en);
    let half: u64 = if size == 1 {
        128
    } else if size == 2 {
        32768
    } else if size == 4 {
        2147483648
    } else {
        9223372036854775808
    };
    let mut out: Vec<i64> = Vec::new();
    let mut i: usize = 0;
    while i < us.len()
        invariant
            i <= us@.len(),
            us@.len() == data@.len() as int / (size as int),
            out@.len() == i,
            half == pow2((8 * size - 1) as nat),
            forall|j: int| 0 <= j < us@.len() ==> #[trigger] us@[j] < pow2((8 * size) as nat),
            forall|j: int|
                0 <= j < us@.len() ==> #[trigger] us@[j] as int == uint_at(
                    data@,
                    (size as int) * j,
                    size as nat,
                    en,
                ),
            forall|j: int|
                0 <= j < i ==> #[trigger] out@[j] as int == sint_at(
                    data@,
                    (size as int) * j,
                    size as nat,
                    en,
                ),
            forall|j: int|
                0 <= j < i ==> -(pow2((8 * size - 1) as nat) as int) <= #[trigger] out@[j]
                    && out@[j] < pow2((8 * size - 1) as nat),
        decreases us@.len() - i,
    {
        let u = us[i];
        proof {
            assert(pow2((8 * size) as nat) == 2 * pow2((8 * size - 1) as nat)) by {
                vstd::arithmetic::power2::lemma_pow2_unfold((8 * size) as nat);
            }
        }
        let s: i64 = if u < half {
            u as i64
        } else if size < 8 {
            (u as i64) - (2 * half) as i64
        } else {
            -((u64::MAX - u) as i64) - 1
        };
        proof {
            if u >= half {
                assert(s as int == u - pow2((8 * size) as nat));
            }
        }
        out.push(s);
        i = i + 1;
    }
    out
}

/// A decoded tile: a typed buffer with its three-dimensional shape. The
/// axis order is rows, columns, bands for an interleaved tile, and bands,
/// rows, columns for a planar one.
#[derive(Debug, PartialEq)]
pub struct Array {
    /// The element buffer.
    pub data: TypedArray,
    /// The extent of each axis.
    pub shape: (usize, usize, usize),
    /// The element type, where one is known.
    pub data_type: Option<DataType>,
}

impl Array {
    /// Shape an element buffer, checking that it holds exactly one
    /// element per position of the shape.
    pub fn try_new(data: TypedArray, shape: (usize, usize, usize), data_type: Option<DataType>)
        -> (r: Result<Array, TiffError>)
        ensures
            (r matches Ok(a) ==> {
                &&& a.data == data
                &&& a.shape == shape
                &&& a.data_type == data_type
                &&& data.sp_len() == shape.0 * shape.1 * shape.2
            }),
            (r is Err <==> data.sp_len() != shape.0 * shape.1 * shape.2),
    {
        let len = data.len();
        if shape.0 == 0 || shape.1 == 0 || shape.2 == 0 {
            proof {
                assert(shape.0 * shape.1 * shape.2 == 0) by (nonlinear_arith)
                    requires
                        shape.0 == 0 || shape.1 == 0 || shape.2 == 0,
                ;
            }
            if len != 0 {
                return Err(TiffError::Format(0));
            }
            return Ok(Array { data, shape, data_type });
        }
        proof {
            assert(shape.0 * shape.1 <= u64::MAX as int * u64::MAX as int) by (nonlinear_arith)
                requires
                    0 <= shape.0 <= u64::MAX && 0 <= shape.1 <= u64::MAX,
            ;
        }
        let p1: u128 = shape.0 as u128 * shape.1 as u128;
        if p1 > len as u128 {
            proof {
                assert(shape.0 * shape.1 * shape.2 >= shape.0 as int * shape.1 as int)
                    by (nonlinear_arith)
                    requires
                        shape.2 >= 1 && shape.0 as int * shape.1 as int >= 0,
                ;
            }
            return Err(TiffError::Format(0));
        }
        proof {
            assert((shape.0 as int * shape.1 as int) * shape.2 as int <= u64::MAX as int * (
            u64::MAX as int)) by (nonlinear_arith)
                requires
                    0 <= shape.0 as int * shape.1 as int <= u64::MAX && 0 <= shape.2 <= u64::MAX,
            ;
            assert(shape.0 as int * shape.1 as int * shape.2 as int == shape.0 * shape.1
                * shape.2) by (nonlinear_arith);
        }
        let expected: u128 = p1 * shape.2 as u128;
        if len as u128 != expected {
            return Err(TiffError::Format(0));
        }
        Ok(Array { data, shape, data_type })
    }

    /// The extent of each axis.
    pub fn shape(&self) -> (r: (usize, usize, usize))
        ensures
            r == self.shape,
    {
        self.shape
    }

    /// The element type, where one is known.
    pub fn data_type(&self) -> (r: Option<DataType>)
        ensures
            r == self.data_type,
    {
        self.data_type
    }

    /// The element buffer.
    pub fn data(&self) -> (r: &TypedArray)
        ensures
            *r == self.data,
    {
        &self.data
    }

    /// Take the array apart into its buffer, shape and element type.
    pub fn into_inner(self) -> (r: (TypedArray, (usize, usize, usize), Option<DataType>))
        ensures
            r.0 == self.data,
            r.1 == self.shape,
            r.2 == self.data_type,
    {
        (self.data, self.shape, self.data_type)
    }
}

} // verus!
