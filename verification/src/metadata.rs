//! The streaming IFD parser: reads tag entries, whole directories, and the
//! file header, through an abstract byte-range fetcher.

use vstd::prelude::*;

use crate::cursor::{sint_at, uint_at, Endianness, MetadataCursor};
use crate::error::TiffError;
use crate::fetch::MetadataFetch;
use crate::tags::{spec_tag_from, spec_type_from, Tag, Type};
use crate::ifd::{from_tags_ok, is_lowering, ImageFileDirectory};
use crate::value::TagValue;

verus! {

/// The size in bytes of one element of an entry of the given type.
pub open spec fn type_size(t: Type) -> int {
    match t {
        Type::BYTE | Type::SBYTE | Type::ASCII | Type::UNDEFINED => 1,
        Type::SHORT | Type::SSHORT => 2,
        Type::LONG | Type::SLONG | Type::FLOAT | Type::IFD => 4,
        Type::LONG8 | Type::SLONG8 | Type::DOUBLE | Type::RATIONAL | Type::SRATIONAL
            | Type::IFD8 => 8,
    }
}

/// The value encoded by one element of type `t` at offset `off` of the
/// file, in the given byte order. Strings are handled separately.
pub open spec fn elem_at(file: Seq<u8>, off: int, t: Type, en: Endianness) -> TagValue {
    match t {
        Type::BYTE | Type::UNDEFINED | Type::ASCII => TagValue::Byte(file[off]),
        Type::SBYTE => TagValue::Signed(sint_at(file, off, 1, en) as i32),
        Type::SHORT => TagValue::Short(uint_at(file, off, 2, en) as u16),
        Type::SSHORT => TagValue::Signed(sint_at(file, off, 2, en) as i32),
        Type::LONG => TagValue::Unsigned(uint_at(file, off, 4, en) as u32),
        Type::SLONG => TagValue::Signed(sint_at(file, off, 4, en) as i32),
        Type::FLOAT => TagValue::Float(uint_at(file, off, 4, en) as u32),
        Type::DOUBLE => TagValue::Double(uint_at(file, off, 8, en) as u64),
        Type::RATIONAL => TagValue::Rational(
            uint_at(file, off, 4, en) as u32,
            uint_at(file, off + 4, 4, en) as u32,
        ),
        Type::SRATIONAL => TagValue::SRational(
            sint_at(file, off, 4, en) as i32,
            sint_at(file, off + 4, 4, en) as i32,
        ),
        Type::LONG8 => TagValue::UnsignedBig(uint_at(file, off, 8, en) as u64),
        Type::SLONG8 => TagValue::SignedBig(sint_at(file, off, 8, en) as i64),
        Type::IFD => TagValue::Ifd(uint_at(file, off, 4, en) as u32),
        Type::IFD8 => TagValue::IfdBig(uint_at(file, off, 8, en) as u64),
    }
}

/// The `n` values of type `t` laid out one after another at offset `off`.
pub open spec fn elems_at(file: Seq<u8>, off: int, t: Type, en: Endianness, n: int) -> Seq<
    TagValue,
> {
    Seq::new(n as nat, |i: int| elem_at(file, off + i * type_size(t), t, en))
}

/// Whether every byte is a 7-bit character.
pub open spec fn all_ascii(s: Seq<u8>) -> bool {
    forall|i: int| 0 <= i < s.len() ==> s[i] < 128
}

/// `s` with every trailing zero byte removed.
pub open spec fn trim_trailing_nuls(s: Seq<u8>) -> Seq<u8>
    decreases s.len(),
{
    if s.len() > 0 && s.last() == 0 {
        trim_trailing_nuls(s.drop_last())
    } else {
        s
    }
}

/// The prefix of `s` before its first zero byte; all of `s` if it has none.
pub open spec fn take_until_nul(s: Seq<u8>) -> Seq<u8>
    decreases s.len(),
{
    if s.len() == 0 {
        s
    } else if s[0] == 0 {
        Seq::empty()
    } else {
        seq![s[0]] + take_until_nul(s.drop_first())
    }
}

/// A sequence of 7-bit bytes is valid UTF-8.
pub proof fn lemma_ascii_valid_utf8(s: Seq<u8>)
    requires
        all_ascii(s),
    ensures
        vstd::utf8::valid_utf8(s),
    decreases s.len(),
{
    if s.len() != 0 {
        let b = s[0];
        assert(b < 128);
        assert(vstd::utf8::is_leading_byte_width_1(b));
        assert((b & 0x7f) as u32 == b as u32) by (bit_vector)
            requires
                b < 128,
        ;
        assert(vstd::utf8::leading_bits_width_1(b) == b);
        assert(vstd::utf8::valid_first_scalar(s));
        assert(vstd::utf8::length_of_first_scalar(s) == 1);
        let rest = vstd::utf8::pop_first_scalar(s);
        assert(rest =~= s.drop_first());
        lemma_ascii_valid_utf8(rest);
    }
}

/// Relies on String::from_utf8: a string is returned exactly for valid
/// UTF-8 input, and holds the decoded characters.
#[verifier::external_body]
fn string_from_utf8(v: Vec<u8>) -> (r: Result<String, TiffError>)
    ensures
        (match r {
            Ok(s) => vstd::utf8::valid_utf8(v@) && s@ == vstd::utf8::decode_utf8(v@),
            Err(e) => !vstd::utf8::valid_utf8(v@) && e == TiffError::Format(0),
        }),
{
    match std::string::String::from_utf8(v) {
        Ok(s) => Ok(s),
        Err(_) => Err(TiffError::Format(0)),
    }
}

/// Read one element of type `t` at the cursor, decoding it in the byte
/// order of the file. Strings are handled by the entry reader itself.
fn read_elem<F: MetadataFetch>(cursor: &mut MetadataCursor, f: &mut F, t: Type) -> (r: Result<
    TagValue,
    TiffError,
>)
    requires
        !(t is ASCII),
    ensures
        final (f).contents() == old(f).contents(),
        final (f).reliable() == old(f).reliable(),
        final (cursor).endian() == old(cursor).endian(),
        (r matches Ok(v) ==> {
            &&& old(cursor).position_spec() + type_size(t) <= old(f).contents().len()
            &&& v == elem_at(
                old(f).contents(),
                old(cursor).position_spec() as int,
                t,
                old(cursor).endian(),
            )
            &&& final (cursor).position_spec() == old(cursor).position_spec() + type_size(t)
        }),
        (old(f).reliable() && old(f).contents().len() <= u64::MAX && old(cursor).position_spec()
            + type_size(t) <= old(f).contents().len()) ==> r is Ok,
{
    match t {
        Type::BYTE | Type::UNDEFINED => match cursor.read_u8(f) {
            Ok(v) => Ok(TagValue::Byte(v)),
            Err(e) => Err(e),
        },
        Type::SBYTE => match cursor.read_i8(f) {
            Ok(v) => Ok(TagValue::Signed(v as i32)),
            Err(e) => Err(e),
        },
        Type::SHORT => match cursor.read_u16(f) {
            Ok(v) => Ok(TagValue::Short(v)),
            Err(e) => Err(e),
        },
        Type::SSHORT => match cursor.read_i16(f) {
            Ok(v) => Ok(TagValue::Signed(v as i32)),
            Err(e) => Err(e),
        },
        Type::LONG => match cursor.read_u32(f) {
            Ok(v) => Ok(TagValue::Unsigned(v)),
            Err(e) => Err(e),
        },
        Type::SLONG => match cursor.read_i32(f) {
            Ok(v) => Ok(TagValue::Signed(v)),
            Err(e) => Err(e),
        },
        Type::FLOAT => match cursor.read_f32_bits(f) {
            Ok(v) => Ok(TagValue::Float(v)),
            Err(e) => Err(e),
        },
        Type::DOUBLE => match cursor.read_f64_bits(f) {
            Ok(v) => Ok(TagValue::Double(v)),
            Err(e) => Err(e),
        },
        Type::RATIONAL => match cursor.read_u32(f) {
            Ok(n) => match cursor.read_u32(f) {
                Ok(d) => Ok(TagValue::Rational(n, d)),
                Err(e) => Err(e),
            },
            Err(e) => Err(e),
        },
        Type::SRATIONAL => match cursor.read_i32(f) {
            Ok(n) => match cursor.read_i32(f) {
                Ok(d) => Ok(TagValue::SRational(n, d)),
                Err(e) => Err(e),
            },
            Err(e) => Err(e),
        },
        Type::LONG8 => match cursor.read_u64(f) {
            Ok(v) => Ok(TagValue::UnsignedBig(v)),
            Err(e) => Err(e),
        },
        Type::SLONG8 => match cursor.read_i64(f) {
            Ok(v) => Ok(TagValue::SignedBig(v)),
            Err(e) => Err(e),
        },
        Type::IFD => match cursor.read_u32(f) {
            Ok(v) => Ok(TagValue::Ifd(v)),
            Err(e) => Err(e),
        },
        Type::IFD8 => match cursor.read_u64(f) {
            Ok(v) => Ok(TagValue::IfdBig(v)),
            Err(e) => Err(e),
        },
        Type::ASCII => Err(TiffError::Format(0)),
    }
}

/// Read `count` elements of type `t` laid out one after another at the
/// cursor.
#[verifier::loop_isolation(false)]
fn read_elem_list<F: MetadataFetch>(
    cursor: &mut MetadataCursor,
    f: &mut F,
    t: Type,
    count: u64,
) -> (r: Result<Vec<TagValue>, TiffError>)
    requires
        !(t is ASCII),
        count * type_size(t) <= u64::MAX,
    ensures
        final (f).contents() == old(f).contents(),
        final (f).reliable() == old(f).reliable(),
        final (cursor).endian() == old(cursor).endian(),
        (r matches Ok(v) ==> {
            &&& v@ == elems_at(
                old(f).contents(),
                old(cursor).position_spec() as int,
                t,
                old(cursor).endian(),
                count as int,
            )
            &&& old(cursor).position_spec() + count * type_size(t) <= old(f).contents().len()
                || count == 0
        }),
        (old(f).reliable() && old(f).contents().len() <= u64::MAX && old(cursor).position_spec()
            + count * type_size(t) <= old(f).contents().len()) ==> r is Ok,
{
    let ghost base = old(cursor).position_spec() as int;
    let ghost file = old(f).contents();
    let ghost en = old(cursor).endian();
    let ghost size = type_size(t);
    let mut out: Vec<TagValue> = Vec::new();
    let mut i: u64 = 0;
    while i < count
        invariant
            i <= count,
            out@.len() == i,
            out@ =~= elems_at(file, base, t, en, i as int),
            cursor.position_spec() == base + i * size,
            cursor.endian() == en,
            f.contents() == file,
            f.reliable() == old(f).reliable(),
            i > 0 ==> base + i * size <= file.len(),
        decreases count - i,
    {
        proof {
            assert((i + 1) * size == i * size + size) by (nonlinear_arith);
            assert(i + 1 <= count ==> (i + 1) * size <= count * size) by (nonlinear_arith)
                requires
                    size >= 0,
            ;
        }
        match read_elem(cursor, f, t) {
            Ok(v) => {
                out.push(v);
                i = i + 1;
                proof {
                    assert(out@ =~= elems_at(file, base, t, en, i as int));
                }
            },
            Err(e) => {
                proof {
                    if f.reliable() && file.len() <= u64::MAX && base + count * size
                        <= file.len() {
                        assert(base + i * size + size <= base + count * size) by (nonlinear_arith)
                            requires
                                i < count,
                                size > 0,
                        ;
                        assert(false);
                    }
                }
                return Err(e);
            },
        }
    }
    Ok(out)
}

/// Whether a value of `byte_len` bytes fits the inline value field of an
/// entry.
pub open spec fn fits_inline(byte_len: int, bigtiff: bool) -> bool {
    byte_len <= 4 || (bigtiff && byte_len <= 8)
}

/// Whether an entry of type `t` with `count` elements, whose value-or-
/// offset field lies at `field_off`, can be parsed out of `file`: every
/// byte it refers to exists, the element total is representable, and a
/// string entry holds a valid string.
pub open spec fn entry_value_ok(
    file: Seq<u8>,
    en: Endianness,
    bigtiff: bool,
    t: Type,
    count: int,
    field_off: int,
) -> bool {
    let size = type_size(t);
    let byte_len = count * size;
    let len = file.len() as int;
    if count == 0 {
        true
    } else if byte_len > u64::MAX {
        false
    } else if count == 1 {
        if bigtiff && size == 8 {
            field_off + 8 <= len
        } else {
            match t {
                Type::ASCII => field_off + 1 <= len && file[field_off] == 0,
                Type::LONG8 | Type::SLONG8 | Type::DOUBLE | Type::RATIONAL | Type::SRATIONAL
                    | Type::IFD8 => field_off + 4 <= len && uint_at(file, field_off, 4, en) + 8
                    <= len,
                _ => field_off + size <= len,
            }
        }
    } else if fits_inline(byte_len, bigtiff) {
        match t {
            Type::ASCII => {
                &&& field_off + count <= len
                &&& all_ascii(file.subrange(field_off, field_off + count))
                &&& file[field_off + count - 1] == 0
            },
            _ => field_off + byte_len <= len,
        }
    } else {
        let osz: int = if bigtiff {
            8
        } else {
            4
        };
        if field_off + osz <= len {
            let data_off = uint_at(file, field_off, osz as nat, en);
            match t {
                Type::ASCII => data_off + count <= len && vstd::utf8::valid_utf8(
                    take_until_nul(file.subrange(data_off, data_off + count)),
                ),
                _ => data_off + byte_len <= len,
            }
        } else {
            false
        }
    }
}

/// Whether `v` is the value of the entry of type `t` with `count` elements
/// whose value-or-offset field lies at `field_off`.
pub open spec fn is_entry_value(
    file: Seq<u8>,
    en: Endianness,
    bigtiff: bool,
    t: Type,
    count: int,
    field_off: int,
    v: TagValue,
) -> bool {
    let size = type_size(t);
    let byte_len = count * size;
    if count == 0 {
        match v {
            TagValue::List(xs) => xs@ =~= Seq::<TagValue>::empty(),
            _ => false,
        }
    } else if count == 1 {
        if bigtiff && size == 8 {
            v == elem_at(file, field_off, t, en)
        } else {
            match t {
                Type::ASCII => match v {
                    TagValue::Ascii(s) => s@ =~= Seq::<char>::empty(),
                    _ => false,
                },
                Type::LONG8 | Type::SLONG8 | Type::DOUBLE | Type::RATIONAL | Type::SRATIONAL
                    | Type::IFD8 => v == elem_at(
                    file,
                    uint_at(file, field_off, 4, en) as int,
                    t,
                    en,
                ),
                _ => v == elem_at(file, field_off, t, en),
            }
        }
    } else if fits_inline(byte_len, bigtiff) {
        match t {
            Type::ASCII => match v {
                TagValue::Ascii(s) => s@ =~= vstd::utf8::decode_utf8(
                    trim_trailing_nuls(file.subrange(field_off, field_off + count)),
                ),
                _ => false,
            },
            _ => match v {
                TagValue::List(xs) => xs@ =~= elems_at(file, field_off, t, en, count),
                _ => false,
            },
        }
    } else {
        let osz: int = if bigtiff {
            8
        } else {
            4
        };
        let data_off = uint_at(file, field_off, osz as nat, en) as int;
        match t {
            Type::ASCII => match v {
                TagValue::Ascii(s) => s@ =~= vstd::utf8::decode_utf8(
                    take_until_nul(file.subrange(data_off, data_off + count)),
                ),
                _ => false,
            },
            _ => match v {
                TagValue::List(xs) => xs@ =~= elems_at(file, data_off, t, en, count),
                _ => false,
            },
        }
    }
}

/// The size in bytes of one element of the given type.
pub fn type_size_of(t: Type) -> (r: u64)
    ensures
        r as int == type_size(t),
{
    match t {
        Type::BYTE | Type::SBYTE | Type::ASCII | Type::UNDEFINED => 1,
        Type::SHORT | Type::SSHORT => 2,
        Type::LONG | Type::SLONG | Type::FLOAT | Type::IFD => 4,
        Type::LONG8 | Type::SLONG8 | Type::DOUBLE | Type::RATIONAL | Type::SRATIONAL
            | Type::IFD8 => 8,
    }
}

/// Trimming trailing zero bytes keeps the prefix that ends at the last
/// nonzero byte.
proof fn lemma_trim_trailing_at(s: Seq<u8>, z: int)
    requires
        0 <= z <= s.len(),
        forall|j: int| z <= j < s.len() ==> s[j] == 0,
        z == 0 || s[z - 1] != 0,
    ensures
        trim_trailing_nuls(s) == s.take(z),
    decreases s.len() - z,
{
    if z == s.len() {
        assert(s.take(z) =~= s);
        if s.len() > 0 && s.last() == 0 {
            assert(s[z - 1] == 0);
        }
    } else {
        assert(s.last() == 0);
        let rest = s.drop_last();
        lemma_trim_trailing_at(rest, z);
        assert(rest.take(z) =~= s.take(z));
    }
}

/// The prefix before the first zero byte is the prefix that stops at the
/// first index holding zero.
proof fn lemma_take_until_nul_at(s: Seq<u8>, k: int)
    requires
        0 <= k <= s.len(),
        forall|j: int| 0 <= j < k ==> s[j] != 0,
        k == s.len() || s[k] == 0,
    ensures
        take_until_nul(s) == s.take(k),
    decreases s.len(),
{
    if s.len() == 0 {
        assert(s.take(k) =~= s);
    } else if s[0] == 0 {
        assert(k == 0);
        assert(s.take(0) =~= Seq::<u8>::empty());
    } else {
        assert(k >= 1);
        let rest = s.drop_first();
        assert(forall|j: int| 0 <= j < k - 1 ==> rest[j] != 0);
        lemma_take_until_nul_at(rest, k - 1);
        assert(seq![s[0]] + rest.take(k - 1) =~= s.take(k));
    }
}

/// Read an inline string entry: `count` bytes at the cursor, which must be
/// 7-bit characters ending in a zero byte; zero bytes at either end are
/// trimmed.
#[verifier::loop_isolation(false)]
fn read_ascii_inline<F: MetadataFetch>(cursor: &mut MetadataCursor, f: &mut F, count: u64) -> (r:
    Result<TagValue, TiffError>)
    requires
        count >= 1,
    ensures
        final (f).contents() == old(f).contents(),
        final (f).reliable() == old(f).reliable(),
        (r matches Ok(v) ==> {
            let file = old(f).contents();
            let field_off = old(cursor).position_spec() as int;
            let b = file.subrange(field_off, field_off + count);
            &&& field_off + count <= file.len()
            &&& all_ascii(b)
            &&& b[count - 1] == 0
            &&& v matches TagValue::Ascii(s) && s@ == vstd::utf8::decode_utf8(trim_trailing_nuls(b))
        }),
        (old(f).reliable() && old(f).contents().len() <= u64::MAX && {
            let file = old(f).contents();
            let field_off = old(cursor).position_spec() as int;
            &&& field_off + count <= file.len()
            &&& all_ascii(file.subrange(field_off, field_off + count))
            &&& file[field_off + count - 1] == 0
        }) ==> r is Ok,
        (old(f).reliable() && old(f).contents().len() <= u64::MAX && r is Ok) ==> {
            let file = old(f).contents();
            let field_off = old(cursor).position_spec() as int;
            &&& field_off + count <= file.len()
            &&& all_ascii(file.subrange(field_off, field_off + count))
            &&& file[field_off + count - 1] == 0
        },
{
    let ghost file = old(f).contents();
    let ghost field_off = old(cursor).position_spec() as int;
    let reader = match cursor.read(f, count) {
        Ok(rd) => rd,
        Err(e) => {
            return Err(e);
        },
    };
    let b = reader.remaining_bytes();
    if (b.len() as u64) < count {
        return Err(TiffError::EndOfFile(count, b.len() as u64));
    }
    proof {
        assert(b@ =~= file.subrange(field_off, field_off + count));
    }
    let n = b.len();
    let mut i: usize = 0;
    while i < n
        invariant
            i <= n,
            forall|j: int| 0 <= j < i ==> b@[j] < 128,
        decreases n - i,
    {
        if b[i] >= 128 {
            return Err(TiffError::Format(0));
        }
        i = i + 1;
    }
    if b[n - 1] != 0 {
        return Err(TiffError::Format(0));
    }
    let mut z: usize = n;
    while z > 0 && b[z - 1] == 0
        invariant
            z <= n,
            forall|j: int| z <= j < n ==> b@[j] == 0,
        decreases z,
    {
        z = z - 1;
    }
    let trimmed = slice_to_vec_range(&b, 0, z);
    proof {
        lemma_trim_trailing_at(b@, z as int);
        assert(b@.take(z as int) =~= b@.subrange(0, z as int));
        assert(trimmed@ == trim_trailing_nuls(b@));
        lemma_ascii_valid_utf8(trimmed@);
    }
    match string_from_utf8(trimmed) {
        Ok(s) => Ok(TagValue::Ascii(s)),
        Err(_) => {
            proof {
                assert(false);
            }
            Err(TiffError::Format(0))
        },
    }
}

/// Read an out-of-line string entry: `count` bytes at the cursor, cut at
/// the first zero byte and decoded as a string.
#[verifier::loop_isolation(false)]
fn read_ascii_out_of_line<F: MetadataFetch>(
    cursor: &mut MetadataCursor,
    f: &mut F,
    count: u64,
) -> (r: Result<TagValue, TiffError>)
    requires
        count >= 1,
    ensures
        final (f).contents() == old(f).contents(),
        final (f).reliable() == old(f).reliable(),
        (r matches Ok(v) ==> {
            let file = old(f).contents();
            let data_off = old(cursor).position_spec() as int;
            let b = file.subrange(data_off, data_off + count);
            &&& data_off + count <= file.len()
            &&& vstd::utf8::valid_utf8(take_until_nul(b))
            &&& v matches TagValue::Ascii(s) && s@ == vstd::utf8::decode_utf8(take_until_nul(b))
        }),
        (old(f).reliable() && old(f).contents().len() <= u64::MAX && {
            let file = old(f).contents();
            let data_off = old(cursor).position_spec() as int;
            &&& data_off + count <= file.len()
            &&& vstd::utf8::valid_utf8(
                take_until_nul(file.subrange(data_off, data_off + count)),
            )
        }) ==> r is Ok,
        (old(f).reliable() && old(f).contents().len() <= u64::MAX && r is Ok) ==> {
            let file = old(f).contents();
            let data_off = old(cursor).position_spec() as int;
            &&& data_off + count <= file.len()
            &&& vstd::utf8::valid_utf8(
                take_until_nul(file.subrange(data_off, data_off + count)),
            )
        },
{
    let ghost file = old(f).contents();
    let ghost data_off = old(cursor).position_spec() as int;
    let reader = match cursor.read(f, count) {
        Ok(rd) => rd,
        Err(e) => {
            return Err(e);
        },
    };
    let b = reader.remaining_bytes();
    if (b.len() as u64) < count {
        return Err(TiffError::EndOfFile(count, b.len() as u64));
    }
    proof {
        assert(b@ =~= file.subrange(data_off, data_off + count));
    }
    let n = b.len();
    let mut k: usize = 0;
    while k < n && b[k] != 0
        invariant
            k <= n,
            forall|j: int| 0 <= j < k ==> b@[j] != 0,
        decreases n - k,
    {
        k = k + 1;
    }
    let cut = slice_to_vec_range(&b, 0, k);
    proof {
        lemma_take_until_nul_at(b@, k as int);
        assert(cut@ =~= b@.take(k as int));
    }
    match string_from_utf8(cut) {
        Ok(s) => Ok(TagValue::Ascii(s)),
        Err(_) => Err(TiffError::Format(0)),
    }
}

/// The bytes of `b` in `[from, to)`, as a fresh buffer.
#[verifier::loop_isolation(false)]
fn slice_to_vec_range(b: &Vec<u8>, from: usize, to: usize) -> (r: Vec<u8>)
    requires
        from <= to <= b@.len(),
    ensures
        r@ == b@.subrange(from as int, to as int),
{
    let mut out: Vec<u8> = Vec::new();
    let mut i: usize = from;
    while i < to
        invariant
            from <= i <= to,
            out@ == b@.subrange(from as int, i as int),
        decreases to - i,
    {
        out.push(b[i]);
        i = i + 1;
    }
    proof {
        assert(out@ =~= b@.subrange(from as int, to as int));
    }
    out
}

/// Read the value of an entry of type `t` with `count` elements. The
/// cursor stands on the entry's value-or-offset field: a small value is
/// decoded from the field itself, a large one through the offset the field
/// holds.
fn read_tag_value<F: MetadataFetch>(
    cursor: &mut MetadataCursor,
    f: &mut F,
    t: Type,
    count: u64,
    bigtiff: bool,
) -> (r: Result<TagValue, TiffError>)
    ensures
        final (f).contents() == old(f).contents(),
        final (f).reliable() == old(f).reliable(),
        (r matches Ok(v) ==> is_entry_value(
            old(f).contents(),
            old(cursor).endian(),
            bigtiff,
            t,
            count as int,
            old(cursor).position_spec() as int,
            v,
        ) && entry_value_ok(
            old(f).contents(),
            old(cursor).endian(),
            bigtiff,
            t,
            count as int,
            old(cursor).position_spec() as int,
        )),
        (old(f).reliable() && old(f).contents().len() <= u64::MAX) ==> (r is Ok
            <==> entry_value_ok(
            old(f).contents(),
            old(cursor).endian(),
            bigtiff,
            t,
            count as int,
            old(cursor).position_spec() as int,
        )),
{
    let ghost file = old(f).contents();
    let ghost en = old(cursor).endian();
    let ghost field_off = old(cursor).position_spec() as int;
    if count == 0 {
        return Ok(TagValue::List(Vec::new()));
    }
    let size = type_size_of(t);
    let max_count = u64::MAX / size;
    proof {
        assert(max_count * size <= u64::MAX && u64::MAX < (max_count + 1) * size)
            by (nonlinear_arith)
            requires
                size > 0 && max_count == u64::MAX as int / size as int,
        ;
        assert(count > max_count ==> count * size > u64::MAX) by (nonlinear_arith)
            requires
                u64::MAX < (max_count + 1) * size && size > 0,
        ;
        assert(count <= max_count ==> count * size <= u64::MAX) by (nonlinear_arith)
            requires
                max_count * size <= u64::MAX && size > 0,
        ;
    }
    if count > max_count {
        return Err(TiffError::Format(0));
    }
    let byte_len = count * size;
    if count == 1 {
        if bigtiff && byte_len > 4 && byte_len <= 8 {
            return read_elem(cursor, f, t);
        }
        match t {
            Type::ASCII => {
                match cursor.read_u8(f) {
                    Ok(b) => {
                        if b == 0 {
                            Ok(TagValue::Ascii(String::new()))
                        } else {
                            Err(TiffError::Format(0))
                        }
                    },
                    Err(e) => Err(e),
                }
            },
            Type::LONG8 | Type::SLONG8 | Type::DOUBLE | Type::RATIONAL | Type::SRATIONAL
                | Type::IFD8 => {
                match cursor.read_u32(f) {
                    Ok(off2) => {
                        cursor.seek(off2 as u64);
                        read_elem(cursor, f, t)
                    },
                    Err(e) => Err(e),
                }
            },
            _ => read_elem(cursor, f, t),
        }
    } else if byte_len <= 4 || (bigtiff && byte_len <= 8) {
        match t {
            Type::ASCII => read_ascii_inline(cursor, f, count),
            _ => match read_elem_list(cursor, f, t, count) {
                Ok(v) => Ok(TagValue::List(v)),
                Err(e) => Err(e),
            },
        }
    } else {
        let data_off = if bigtiff {
            match cursor.read_u64(f) {
                Ok(o) => o,
                Err(e) => {
                    return Err(e);
                },
            }
        } else {
            match cursor.read_u32(f) {
                Ok(o) => o as u64,
                Err(e) => {
                    return Err(e);
                },
            }
        };
        cursor.seek(data_off);
        match t {
            Type::ASCII => read_ascii_out_of_line(cursor, f, count),
            _ => match read_elem_list(cursor, f, t, count) {
                Ok(v) => Ok(TagValue::List(v)),
                Err(e) => Err(e),
            },
        }
    }
}

/// The tag code of the entry at `entry_off`.
pub open spec fn entry_tag_code(file: Seq<u8>, en: Endianness, entry_off: int) -> u16 {
    uint_at(file, entry_off, 2, en) as u16
}

/// The declared type of the entry at `entry_off`, if its code is a known
/// type.
pub open spec fn entry_type(file: Seq<u8>, en: Endianness, entry_off: int) -> Option<Type> {
    spec_type_from(uint_at(file, entry_off + 2, 2, en) as u16)
}

/// The element count of the entry at `entry_off`.
pub open spec fn entry_count(file: Seq<u8>, en: Endianness, bigtiff: bool, entry_off: int) -> int {
    if bigtiff {
        uint_at(file, entry_off + 4, 8, en)
    } else {
        uint_at(file, entry_off + 4, 4, en)
    }
}

/// The offset of the value-or-offset field of the entry at `entry_off`.
pub open spec fn entry_field_off(bigtiff: bool, entry_off: int) -> int {
    entry_off + if bigtiff {
        12int
    } else {
        8int
    }
}

/// Whether the whole entry at `entry_off` can be parsed: its header is in
/// bounds, its type code is known, and its value can be parsed.
pub open spec fn entry_ok(file: Seq<u8>, en: Endianness, bigtiff: bool, entry_off: int) -> bool {
    let hdr: int = if bigtiff {
        12
    } else {
        8
    };
    &&& entry_off + hdr <= file.len()
    &&& entry_type(file, en, entry_off) is Some
    &&& entry_value_ok(
        file,
        en,
        bigtiff,
        entry_type(file, en, entry_off).unwrap(),
        entry_count(file, en, bigtiff, entry_off),
        entry_field_off(bigtiff, entry_off),
    )
}

/// Whether `(tag, v)` is the parse of the entry at `entry_off`.
pub open spec fn is_entry(
    file: Seq<u8>,
    en: Endianness,
    bigtiff: bool,
    entry_off: int,
    tag: Tag,
    v: TagValue,
) -> bool {
    &&& tag == spec_tag_from(entry_tag_code(file, en, entry_off))
    &&& entry_type(file, en, entry_off) is Some
    &&& is_entry_value(
        file,
        en,
        bigtiff,
        entry_type(file, en, entry_off).unwrap(),
        entry_count(file, en, bigtiff, entry_off),
        entry_field_off(bigtiff, entry_off),
        v,
    )
}

/// Read the entry at `tag_offset`: its tag, declared type, element count,
/// and value.
pub fn read_tag<F: MetadataFetch>(
    f: &mut F,
    tag_offset: u64,
    endianness: Endianness,
    bigtiff: bool,
) -> (r: Result<(Tag, TagValue), TiffError>)
    ensures
        final (f).contents() == old(f).contents(),
        final (f).reliable() == old(f).reliable(),
        (r matches Ok(tv) ==> is_entry(
            old(f).contents(),
            endianness,
            bigtiff,
            tag_offset as int,
            tv.0,
            tv.1,
        ) && entry_ok(old(f).contents(), endianness, bigtiff, tag_offset as int)),
        (old(f).reliable() && old(f).contents().len() <= u64::MAX) ==> (r is Ok <==> entry_ok(
            old(f).contents(),
            endianness,
            bigtiff,
            tag_offset as int,
        )),
        (old(f).reliable() && old(f).contents().len() <= u64::MAX && tag_offset + 4 <= old(
            f,
        ).contents().len() && entry_type(old(f).contents(), endianness, tag_offset as int)
            is None) ==> r == Err::<(Tag, TagValue), TiffError>(
            TiffError::Format(entry_tag_code(old(f).contents(), endianness, tag_offset as int)),
        ),
{
    let mut cursor = MetadataCursor::new_with_offset(endianness, tag_offset);
    let code = match cursor.read_u16(f) {
        Ok(c) => c,
        Err(e) => {
            return Err(e);
        },
    };
    let tag = Tag::from_u16_exhaustive(code);
    let type_code = match cursor.read_u16(f) {
        Ok(c) => c,
        Err(e) => {
            return Err(e);
        },
    };
    let t = match Type::from_u16(type_code) {
        Some(t) => t,
        None => {
            return Err(TiffError::Format(code));
        },
    };
    let count: u64 = if bigtiff {
        match cursor.read_u64(f) {
            Ok(c) => c,
            Err(e) => {
                return Err(e);
            },
        }
    } else {
        match cursor.read_u32(f) {
            Ok(c) => c as u64,
            Err(e) => {
                return Err(e);
            },
        }
    };
    match read_tag_value(&mut cursor, f, t, count, bigtiff) {
        Ok(v) => Ok((tag, v)),
        Err(e) => Err(e),
    }
}

/// The number of entries declared by the IFD at `ifd_start`.
pub open spec fn ifd_count_field(file: Seq<u8>, en: Endianness, bigtiff: bool, ifd_start: int) -> int {
    if bigtiff {
        uint_at(file, ifd_start, 8, en)
    } else {
        uint_at(file, ifd_start, 2, en)
    }
}

/// The offset of entry `i` of the IFD at `ifd_start`.
pub open spec fn ifd_entry_off(bigtiff: bool, ifd_start: int, i: int) -> int {
    ifd_start + (if bigtiff {
        8int
    } else {
        2int
    }) + i * (if bigtiff {
        20int
    } else {
        12int
    })
}

/// The offset of the next-IFD pointer that trails the entry table.
pub open spec fn ifd_trailer_off(file: Seq<u8>, en: Endianness, bigtiff: bool, ifd_start: int) -> int {
    ifd_entry_off(bigtiff, ifd_start, ifd_count_field(file, en, bigtiff, ifd_start))
}

/// The next-IFD pointer of the IFD at `ifd_start`; zero closes the chain.
pub open spec fn ifd_next_offset(file: Seq<u8>, en: Endianness, bigtiff: bool, ifd_start: int) -> int {
    uint_at(
        file,
        ifd_trailer_off(file, en, bigtiff, ifd_start),
        if bigtiff {
            8nat
        } else {
            4nat
        },
        en,
    )
}

/// Whether the whole IFD at `ifd_start` can be parsed: its entry count,
/// every entry, and the trailing next-IFD pointer.
pub open spec fn ifd_ok(file: Seq<u8>, en: Endianness, bigtiff: bool, ifd_start: int) -> bool {
    let hdr: int = if bigtiff {
        8int
    } else {
        2int
    };
    let osz: int = if bigtiff {
        8int
    } else {
        4int
    };
    &&& ifd_start + hdr <= file.len()
    &&& (forall|i: int|
        0 <= i < ifd_count_field(file, en, bigtiff, ifd_start) ==> entry_ok(
            file,
            en,
            bigtiff,
            #[trigger] ifd_entry_off(bigtiff, ifd_start, i),
        ))
    &&& ifd_trailer_off(file, en, bigtiff, ifd_start) + osz <= file.len()
}

/// The parsed entry table of one IFD, together with the offset of the next
/// IFD in the chain, if any.
pub struct ImageFileDirectoryReader {
    tags: Vec<(Tag, TagValue)>,
    next_ifd_offset: Option<u64>,
}

impl ImageFileDirectoryReader {
    /// The parsed entries, in file order.
    pub closed spec fn tags_view(&self) -> Seq<(Tag, TagValue)> {
        self.tags@
    }

    /// The offset of the next IFD, if the chain continues.
    pub closed spec fn next_view(&self) -> Option<u64> {
        self.next_ifd_offset
    }

    /// Read and parse the IFD starting at the given file offset.
    #[verifier::loop_isolation(false)]
    pub fn open<F: MetadataFetch>(
        f: &mut F,
        ifd_start: u64,
        bigtiff: bool,
        endianness: Endianness,
    ) -> (r: Result<ImageFileDirectoryReader, TiffError>)
        ensures
            final (f).contents() == old(f).contents(),
            final (f).reliable() == old(f).reliable(),
            (r matches Ok(rdr) ==> {
                let file = old(f).contents();
                let count = ifd_count_field(file, endianness, bigtiff, ifd_start as int);
                &&& rdr.tags_view().len() == count
                &&& (forall|i: int|
                    0 <= i < count ==> is_entry(
                        file,
                        endianness,
                        bigtiff,
                        ifd_entry_off(bigtiff, ifd_start as int, i),
                        (#[trigger] rdr.tags_view()[i]).0,
                        rdr.tags_view()[i].1,
                    ))
                &&& {
                    let next = ifd_next_offset(file, endianness, bigtiff, ifd_start as int);
                    rdr.next_view() == if next == 0 {
                        None::<u64>
                    } else {
                        Some(next as u64)
                    }
                }
            }),
            (old(f).reliable() && old(f).contents().len() <= u64::MAX) ==> (r is Ok <==> ifd_ok(
                old(f).contents(),
                endianness,
                bigtiff,
                ifd_start as int,
            )),
    {
        let ghost file = old(f).contents();
        let mut cursor = MetadataCursor::new_with_offset(endianness, ifd_start);
        let tag_count: u64 = if bigtiff {
            match cursor.read_u64(f) {
                Ok(c) => c,
                Err(e) => {
                    return Err(e);
                },
            }
        } else {
            match cursor.read_u16(f) {
                Ok(c) => c as u64,
                Err(e) => {
                    return Err(e);
                },
            }
        };
        let hdr: u64 = if bigtiff {
            8
        } else {
            2
        };
        let entry_size: u64 = if bigtiff {
            20
        } else {
            12
        };
        let mut tags: Vec<(Tag, TagValue)> = Vec::new();
        let mut i: u64 = 0;
        while i < tag_count
            invariant
                i <= tag_count,
                tags@.len() == i,
                forall|j: int|
                    0 <= j < i ==> is_entry(
                        file,
                        endianness,
                        bigtiff,
                        ifd_entry_off(bigtiff, ifd_start as int, j),
                        (#[trigger] tags@[j]).0,
                        tags@[j].1,
                    ),
                forall|j: int|
                    0 <= j < i ==> entry_ok(
                        file,
                        endianness,
                        bigtiff,
                        #[trigger] ifd_entry_off(bigtiff, ifd_start as int, j),
                    ),
                f.contents() == file,
                f.reliable() == old(f).reliable(),
            decreases tag_count - i,
        {
            proof {
                assert(entry_size * i <= 20 * (u64::MAX as int)) by (nonlinear_arith)
                    requires
                        entry_size <= 20 && i <= u64::MAX,
                ;
            }
            let eo: u128 = ifd_start as u128 + hdr as u128 + entry_size as u128 * i as u128;
            if eo > u64::MAX as u128 {
                proof {
                    if f.reliable() && file.len() <= u64::MAX {
                        assert(!entry_ok(
                            file,
                            endianness,
                            bigtiff,
                            ifd_entry_off(bigtiff, ifd_start as int, i as int),
                        ));
                    }
                }
                return Err(TiffError::EndOfFile(entry_size, 0));
            }
            let tag_offset = eo as u64;
            proof {
                assert(tag_offset as int == ifd_entry_off(bigtiff, ifd_start as int, i as int));
            }
            match read_tag(f, tag_offset, endianness, bigtiff) {
                Ok((tag, value)) => {
                    tags.push((tag, value));
                },
                Err(e) => {
                    return Err(e);
                },
            }
            i = i + 1;
        }
        proof {
            assert(entry_size * tag_count <= 20 * (u64::MAX as int)) by (nonlinear_arith)
                requires
                    entry_size <= 20 && tag_count <= u64::MAX,
            ;
        }
        let to: u128 = ifd_start as u128 + hdr as u128 + entry_size as u128 * tag_count as u128;
        if to > u64::MAX as u128 {
            return Err(TiffError::EndOfFile(entry_size, 0));
        }
        cursor.seek(to as u64);
        let next_raw: u64 = if bigtiff {
            match cursor.read_u64(f) {
                Ok(c) => c,
                Err(e) => {
                    return Err(e);
                },
            }
        } else {
            match cursor.read_u32(f) {
                Ok(c) => c as u64,
                Err(e) => {
                    return Err(e);
                },
            }
        };
        let next_ifd_offset = if next_raw == 0 {
            None
        } else {
            Some(next_raw)
        };
        Ok(ImageFileDirectoryReader { tags, next_ifd_offset })
    }

    /// Take the parsed entries and the next-IFD offset out of the reader.
    pub fn into_inner(self) -> (r: (Vec<(Tag, TagValue)>, Option<u64>))
        ensures
            r.0@ == self.tags_view(),
            r.1 == self.next_view(),
    {
        (self.tags, self.next_ifd_offset)
    }
}

/// Whether the file header names a byte order: `II` for little-endian,
/// `MM` for big-endian.
pub open spec fn header_endianness(file: Seq<u8>) -> Option<Endianness> {
    if file.len() >= 2 && file[0] == 73 && file[1] == 73 {
        Some(Endianness::LittleEndian)
    } else if file.len() >= 2 && file[0] == 77 && file[1] == 77 {
        Some(Endianness::BigEndian)
    } else {
        None
    }
}

/// The version word of the file header: 42 for classic TIFF, 43 for
/// BigTIFF.
pub open spec fn header_version(file: Seq<u8>, en: Endianness) -> int {
    uint_at(file, 2, 2, en)
}

/// The offset of the first IFD, read from the header.
pub open spec fn header_first_ifd(file: Seq<u8>, en: Endianness, bigtiff: bool) -> int {
    if bigtiff {
        uint_at(file, 8, 8, en)
    } else {
        uint_at(file, 4, 4, en)
    }
}

/// Whether the file header can be parsed: a byte order, a known version,
/// and for BigTIFF the fixed offset size and padding words.
pub open spec fn header_ok(file: Seq<u8>) -> bool {
    &&& header_endianness(file) is Some
    &&& file.len() >= 4
    &&& {
        let en = header_endianness(file).unwrap();
        let v = header_version(file, en);
        ||| (v == 42 && file.len() >= 8)
        ||| (v == 43 && file.len() >= 16 && uint_at(file, 4, 2, en) == 8 && uint_at(
            file,
            6,
            2,
            en,
        ) == 0)
    }
}

/// Reads TIFF metadata from a byte-range source: the header first, then
/// the chain of IFDs, one at a time.
pub struct TiffMetadataReader {
    pub(crate) endianness: Endianness,
    pub(crate) bigtiff: bool,
    pub(crate) next_ifd_offset: Option<u64>,
    pub(crate) ifd_limit: u64,
}

impl TiffMetadataReader {
    /// The byte order of the file.
    pub closed spec fn endian(&self) -> Endianness {
        self.endianness
    }

    /// Whether the file is BigTIFF.
    pub closed spec fn bigtiff_spec(&self) -> bool {
        self.bigtiff
    }

    /// The offset of the next IFD to read, if the chain continues.
    pub closed spec fn next_view(&self) -> Option<u64> {
        self.next_ifd_offset
    }

    /// The largest number of IFDs `read_all_ifds` will read.
    pub closed spec fn ifd_limit_spec(&self) -> u64 {
        self.ifd_limit
    }

    /// Open a TIFF file: validate the magic bytes, read the byte order,
    /// the version word, and the offset of the first IFD.
    ///
    /// This reads no IFD itself.
    pub fn try_open<F: MetadataFetch>(f: &mut F) -> (r: Result<TiffMetadataReader, TiffError>)
        ensures
            final (f).contents() == old(f).contents(),
            final (f).reliable() == old(f).reliable(),
            (r matches Ok(rdr) ==> {
                let file = old(f).contents();
                &&& header_ok(file)
                &&& Some(rdr.endian()) == header_endianness(file)
                &&& rdr.bigtiff_spec() == (header_version(file, rdr.endian()) == 43)
                &&& rdr.next_view() == Some(
                    header_first_ifd(file, rdr.endian(), rdr.bigtiff_spec()) as u64,
                )
                &&& rdr.ifd_limit_spec() == 16
            }),
            (old(f).reliable() && old(f).contents().len() <= u64::MAX) ==> {
                &&& (r is Ok <==> header_ok(old(f).contents()))
                &&& (header_endianness(old(f).contents()) is None ==> r == Err::<
                    TiffMetadataReader,
                    TiffError,
                >(TiffError::BadMagic))
            },
    {
        let ghost file = old(f).contents();
        let magic = match f.fetch(0, 2) {
            Ok(m) => m,
            Err(e) => {
                return Err(e);
            },
        };
        let endianness: Endianness = if magic.len() == 2 && magic[0] == 73 && magic[1] == 73 {
            Endianness::LittleEndian
        } else if magic.len() == 2 && magic[0] == 77 && magic[1] == 77 {
            Endianness::BigEndian
        } else {
            return Err(TiffError::BadMagic);
        };
        let mut cursor = MetadataCursor::new_with_offset(endianness, 2);
        let version = match cursor.read_u16(f) {
            Ok(v) => v,
            Err(e) => {
                return Err(e);
            },
        };
        let bigtiff = match version {
            42 => false,
            43 => {
                let offset_size = match cursor.read_u16(f) {
                    Ok(v) => v,
                    Err(e) => {
                        return Err(e);
                    },
                };
                if offset_size != 8 {
                    return Err(TiffError::Format(0));
                }
                let padding = match cursor.read_u16(f) {
                    Ok(v) => v,
                    Err(e) => {
                        return Err(e);
                    },
                };
                if padding != 0 {
                    return Err(TiffError::Format(0));
                }
                true
            },
            _ => {
                return Err(TiffError::BadMagic);
            },
        };
        let first_ifd: u64 = if bigtiff {
            match cursor.read_u64(f) {
                Ok(v) => v,
                Err(e) => {
                    return Err(e);
                },
            }
        } else {
            match cursor.read_u32(f) {
                Ok(v) => v as u64,
                Err(e) => {
                    return Err(e);
                },
            }
        };
        Ok(TiffMetadataReader { endianness, bigtiff, next_ifd_offset: Some(first_ifd), ifd_limit: 16 })
    }

    /// The byte order of the file.
    pub fn endianness(&self) -> (r: Endianness)
        ensures
            r == self.endian(),
    {
        self.endianness
    }

    /// Whether the file is BigTIFF.
    pub fn bigtiff(&self) -> (r: bool)
        ensures
            r == self.bigtiff_spec(),
    {
        self.bigtiff
    }

    /// Whether another IFD remains to be read.
    pub fn has_next_ifd(&self) -> (r: bool)
        ensures
            r == (self.next_view() is Some),
    {
        self.next_ifd_offset.is_some()
    }

    /// Bound the number of IFDs that `read_all_ifds` reads, guarding
    /// against a malformed file whose IFD chain loops.
    pub fn with_ifd_limit(self, limit: u64) -> (r: TiffMetadataReader)
        ensures
            r.endian() == self.endian(),
            r.bigtiff_spec() == self.bigtiff_spec(),
            r.next_view() == self.next_view(),
            r.ifd_limit_spec() == limit,
    {
        let TiffMetadataReader { endianness, bigtiff, next_ifd_offset, ifd_limit: _ } = self;
        TiffMetadataReader { endianness, bigtiff, next_ifd_offset, ifd_limit: limit }
    }
}

/// Whether `tags` is the parsed entry table of the IFD at `ifd_start`.
pub open spec fn ifd_entries_match(
    file: Seq<u8>,
    en: Endianness,
    bigtiff: bool,
    ifd_start: int,
    tags: Seq<(Tag, TagValue)>,
) -> bool {
    &&& tags.len() == ifd_count_field(file, en, bigtiff, ifd_start)
    &&& (forall|i: int|
        0 <= i < tags.len() ==> is_entry(
            file,
            en,
            bigtiff,
            ifd_entry_off(bigtiff, ifd_start, i),
            (#[trigger] tags[i]).0,
            tags[i].1,
        ))
}

/// The next-IFD pointer of the IFD at `p`, with zero closing the chain.
pub open spec fn spec_next_opt(file: Seq<u8>, en: Endianness, bigtiff: bool, p: int) -> Option<
    u64,
> {
    if ifd_next_offset(file, en, bigtiff, p) == 0 {
        None
    } else {
        Some(ifd_next_offset(file, en, bigtiff, p) as u64)
    }
}

/// Whether `ifd` is the materialized directory read from offset `p`.
pub open spec fn ifd_at(
    file: Seq<u8>,
    en: Endianness,
    bigtiff: bool,
    p: u64,
    ifd: ImageFileDirectory,
) -> bool {
    exists|tags: Seq<(Tag, TagValue)>|
        #[trigger] ifd_entries_match(file, en, bigtiff, p as int, tags) && is_lowering(
            tags,
            spec_next_opt(file, en, bigtiff, p as int),
            ifd,
        )
}

/// Whether `ifds` is a prefix of the directory chain that starts at
/// `start`: each directory is read at its offset and hands the chain on.
pub open spec fn is_ifd_chain(
    file: Seq<u8>,
    en: Endianness,
    bigtiff: bool,
    start: Option<u64>,
    ifds: Seq<ImageFileDirectory>,
) -> bool
    decreases ifds.len(),
{
    if ifds.len() == 0 {
        true
    } else {
        &&& start matches Some(p)
        &&& ifd_at(file, en, bigtiff, start.unwrap(), ifds[0])
        &&& is_ifd_chain(file, en, bigtiff, ifds[0].next_ifd_offset, ifds.drop_first())
    }
}

/// Whether every directory along the chain that starts at `start` can be
/// read and lowered, following at most `fuel` links: each node's entry
/// table parses and any matching table lowers.
pub open spec fn chain_ok(
    file: Seq<u8>,
    en: Endianness,
    bigtiff: bool,
    start: Option<u64>,
    fuel: nat,
) -> bool
    decreases fuel,
{
    fuel == 0 || match start {
        None => true,
        Some(p) => {
            &&& ifd_ok(file, en, bigtiff, p as int)
            &&& (forall|tags: Seq<(Tag, TagValue)>|
                #![trigger ifd_entries_match(file, en, bigtiff, p as int, tags)]
                ifd_entries_match(file, en, bigtiff, p as int, tags) ==> from_tags_ok(tags))
            &&& chain_ok(
                file,
                en,
                bigtiff,
                spec_next_opt(file, en, bigtiff, p as int),
                (fuel - 1) as nat,
            )
        },
    }
}

impl ImageFileDirectoryReader {
    /// Lower this reader's entry table into a materialized directory,
    /// returning it together with the next-IFD offset.
    pub fn finish(self) -> (r: Result<(ImageFileDirectory, Option<u64>), TiffError>)
        ensures
            (r matches Ok(p) ==> is_lowering(self.tags_view(), self.next_view(), p.0) && p.1
                == self.next_view()),
            (r is Ok <==> from_tags_ok(self.tags_view())),
    {
        let (tags, next_ifd_offset) = self.into_inner();
        match ImageFileDirectory::from_tags(tags, next_ifd_offset) {
            Ok(ifd) => Ok((ifd, next_ifd_offset)),
            Err(e) => Err(e),
        }
    }
}

impl TiffMetadataReader {
    /// Read the next IFD of the chain, or `None` once the chain ends.
    pub fn read_next_ifd<F: MetadataFetch>(&mut self, f: &mut F) -> (r: Result<
        Option<ImageFileDirectory>,
        TiffError,
    >)
        ensures
            final (f).contents() == old(f).contents(),
            final (f).reliable() == old(f).reliable(),
            final (self).endian() == old(self).endian(),
            final (self).bigtiff_spec() == old(self).bigtiff_spec(),
            final (self).ifd_limit_spec() == old(self).ifd_limit_spec(),
            old(self).next_view() is None ==> r == Ok::<Option<ImageFileDirectory>, TiffError>(
                None,
            ) && final (self).next_view() is None,
            (r matches Ok(o) && o is None) ==> old(self).next_view() is None && final (
            self).next_view() is None,
            (r matches Ok(Some(ifd)) ==> {
                &&& old(self).next_view() matches Some(p)
                &&& ifd_at(
                    old(f).contents(),
                    old(self).endian(),
                    old(self).bigtiff_spec(),
                    old(self).next_view().unwrap(),
                    ifd,
                )
                &&& final (self).next_view() == ifd.next_ifd_offset
            }),
            r is Err ==> final (self).next_view() == old(self).next_view(),
            ({
                &&& old(f).reliable()
                &&& old(f).contents().len() <= u64::MAX
                &&& old(self).next_view() matches Some(p)
                &&& !ifd_ok(
                    old(f).contents(),
                    old(self).endian(),
                    old(self).bigtiff_spec(),
                    old(self).next_view().unwrap() as int,
                )
            }) ==> r is Err,
            ({
                &&& old(f).reliable()
                &&& old(f).contents().len() <= u64::MAX
                &&& old(self).next_view() matches Some(p)
                &&& ifd_ok(
                    old(f).contents(),
                    old(self).endian(),
                    old(self).bigtiff_spec(),
                    old(self).next_view().unwrap() as int,
                )
                &&& (forall|tags: Seq<(Tag, TagValue)>|
                    #![trigger ifd_entries_match(old(f).contents(), old(self).endian(), old(self).bigtiff_spec(), old(self).next_view().unwrap() as int, tags)]
                    ifd_entries_match(
                        old(f).contents(),
                        old(self).endian(),
                        old(self).bigtiff_spec(),
                        old(self).next_view().unwrap() as int,
                        tags,
                    ) ==> from_tags_ok(tags))
            }) ==> (r matches Ok(o) && o is Some),
            ({
                &&& old(f).reliable()
                &&& old(f).contents().len() <= u64::MAX
                &&& old(self).next_view() matches Some(p)
                &&& r is Err
            }) ==> !ifd_ok(
                old(f).contents(),
                old(self).endian(),
                old(self).bigtiff_spec(),
                old(self).next_view().unwrap() as int,
            ) || exists|tags: Seq<(Tag, TagValue)>|
                #![trigger ifd_entries_match(old(f).contents(), old(self).endian(), old(self).bigtiff_spec(), old(self).next_view().unwrap() as int, tags)]
                ifd_entries_match(
                    old(f).contents(),
                    old(self).endian(),
                    old(self).bigtiff_spec(),
                    old(self).next_view().unwrap() as int,
                    tags,
                ) && !from_tags_ok(tags),
    {
        match self.next_ifd_offset {
            Some(p) => {
                match ImageFileDirectoryReader::open(f, p, self.bigtiff, self.endianness) {
                    Ok(rdr) => {
                        let ghost tags_g = rdr.tags_view();
                        match rdr.finish() {
                            Ok((ifd, next)) => {
                                self.next_ifd_offset = next;
                                proof {
                                    assert(ifd_entries_match(
                                        old(f).contents(),
                                        old(self).endian(),
                                        old(self).bigtiff_spec(),
                                        p as int,
                                        tags_g,
                                    ));
                                }
                                Ok(Some(ifd))
                            },
                            Err(e) => Err(e),
                        }
                    },
                    Err(e) => Err(e),
                }
            },
            None => Ok(None),
        }
    }

    /// Read the remaining IFDs of the chain, up to the configured limit.
    #[verifier::loop_isolation(false)]
    pub fn read_all_ifds<F: MetadataFetch>(&mut self, f: &mut F) -> (r: Result<
        Vec<ImageFileDirectory>,
        TiffError,
    >)
        ensures
            final (f).contents() == old(f).contents(),
            final (f).reliable() == old(f).reliable(),
            final (self).endian() == old(self).endian(),
            final (self).bigtiff_spec() == old(self).bigtiff_spec(),
            (r matches Ok(ifds) ==> {
                &&& is_ifd_chain(
                    old(f).contents(),
                    old(self).endian(),
                    old(self).bigtiff_spec(),
                    old(self).next_view(),
                    ifds@,
                )
                &&& ifds@.len() <= old(self).ifd_limit_spec()
                &&& (final (self).next_view() is None || ifds@.len()
                    == old(self).ifd_limit_spec())
            }),
            (old(f).reliable() && old(f).contents().len() <= u64::MAX && chain_ok(
                old(f).contents(),
                old(self).endian(),
                old(self).bigtiff_spec(),
                old(self).next_view(),
                old(self).ifd_limit_spec() as nat,
            )) ==> r is Ok,
    {
        let ghost file = old(f).contents();
        let ghost en = old(self).endian();
        let ghost bt = old(self).bigtiff_spec();
        let limit = self.ifd_limit;
        let mut ifds: Vec<ImageFileDirectory> = Vec::new();
        let mut count: u64 = 0;
        proof {
            assert(ifds@.skip(0) =~= ifds@);
        }
        while count < limit
            invariant
                count == ifds@.len(),
                count <= limit,
                is_ifd_chain(file, en, bt, old(self).next_view(), ifds@) || ifds@.len() == 0,
                ifds@.len() == 0 ==> self.next_view() == old(self).next_view(),
                ifds@.len() > 0 ==> self.next_view() == ifds@.last().next_ifd_offset,
                chain_extends(file, en, bt, old(self).next_view(), ifds@),
                (old(f).reliable() && file.len() <= u64::MAX && chain_ok(
                    file,
                    en,
                    bt,
                    old(self).next_view(),
                    limit as nat,
                )) ==> chain_ok(file, en, bt, self.next_view(), (limit - count) as nat),
                f.contents() == file,
                f.reliable() == old(f).reliable(),
                self.endian() == en,
                self.bigtiff_spec() == bt,
                self.ifd_limit_spec() == old(self).ifd_limit_spec(),
            decreases limit - count,
        {
            if !self.has_next_ifd() {
                break ;
            }
            let ghost pre_ifds = ifds@;
            let ghost pre_next = self.next_view();
            match self.read_next_ifd(f) {
                Ok(Some(ifd)) => {
                    ifds.push(ifd);
                    count = count + 1;
                    proof {
                        lemma_chain_snoc(file, en, bt, old(self).next_view(), pre_ifds, ifds@.last());
                        if old(f).reliable() && file.len() <= u64::MAX && chain_ok(
                            file,
                            en,
                            bt,
                            old(self).next_view(),
                            limit as nat,
                        ) {
                            assert(self.next_view() == spec_next_opt(
                                file,
                                en,
                                bt,
                                pre_next.unwrap() as int,
                            ));
                        }
                    }
                },
                Ok(None) => {
                    break ;
                },
                Err(e) => {
                    proof {
                        if old(f).reliable() && file.len() <= u64::MAX && chain_ok(
                            file,
                            en,
                            bt,
                            old(self).next_view(),
                            limit as nat,
                        ) {
                            assert(chain_ok(file, en, bt, pre_next, (limit - count) as nat));
                            assert(false);
                        }
                    }
                    return Err(e);
                },
            }
        }
        Ok(ifds)
    }
}

/// Whether the chain relation holds of a prefix and ends at the reader's
/// current offset.
pub open spec fn chain_extends(
    file: Seq<u8>,
    en: Endianness,
    bigtiff: bool,
    start: Option<u64>,
    ifds: Seq<ImageFileDirectory>,
) -> bool {
    is_ifd_chain(file, en, bigtiff, start, ifds)
}

/// Appending one directory read at the chain's current tail keeps the
/// chain relation.
proof fn lemma_chain_snoc(
    file: Seq<u8>,
    en: Endianness,
    bigtiff: bool,
    start: Option<u64>,
    ifds: Seq<ImageFileDirectory>,
    ifd: ImageFileDirectory,
)
    requires
        is_ifd_chain(file, en, bigtiff, start, ifds),
        ({
            let tail = if ifds.len() == 0 {
                start
            } else {
                ifds.last().next_ifd_offset
            };
            &&& tail matches Some(p)
            &&& ifd_at(file, en, bigtiff, tail.unwrap(), ifd)
        }),
    ensures
        is_ifd_chain(file, en, bigtiff, start, ifds.push(ifd)),
    decreases ifds.len(),
{
    if ifds.len() == 0 {
        assert(ifds.push(ifd)[0] == ifd);
        assert(ifds.push(ifd).drop_first() =~= Seq::<ImageFileDirectory>::empty());
        assert(is_ifd_chain(
            file,
            en,
            bigtiff,
            ifd.next_ifd_offset,
            Seq::<ImageFileDirectory>::empty(),
        ));
    } else {
        lemma_chain_snoc(file, en, bigtiff, ifds[0].next_ifd_offset, ifds.drop_first(), ifd);
        assert(ifds.push(ifd).drop_first() =~= ifds.drop_first().push(ifd));
        assert(ifds.push(ifd)[0] == ifds[0]);
    }
}

} // verus!
