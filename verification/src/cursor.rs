//! Endian-aware scalar reads over fetched bytes, and a seekable cursor
//! over a metadata source.

use vstd::arithmetic::power2::pow2;
use vstd::prelude::*;

use crate::error::TiffError;
use crate::fetch::{clipped, MetadataFetch};

verus! {

/// The byte order of the file, read once from its first two bytes.
#[derive(Debug, Clone, Copy, PartialEq, Eq, Structural, Hash)]
pub enum Endianness {
    /// Least significant byte first (`II` header).
    LittleEndian,
    /// Most significant byte first (`MM` header).
    BigEndian,
}

/// The unsigned integer held by `n` bytes of `s` starting at `off`, least
/// significant byte first.
pub open spec fn le_uint(s: Seq<u8>, off: int, n: nat) -> int
    decreases n,
{
    if n == 0 {
        0
    } else {
        s[off] + 256 * le_uint(s, off + 1, (n - 1) as nat)
    }
}

/// The unsigned integer held by `n` bytes of `s` starting at `off`, most
/// significant byte first.
pub open spec fn be_uint(s: Seq<u8>, off: int, n: nat) -> int
    decreases n,
{
    if n == 0 {
        0
    } else {
        s[off + n - 1] + 256 * be_uint(s, off, (n - 1) as nat)
    }
}

/// The unsigned integer held by `n` bytes of `s` at `off`, in the given
/// byte order.
pub open spec fn uint_at(s: Seq<u8>, off: int, n: nat, en: Endianness) -> int {
    match en {
        Endianness::LittleEndian => le_uint(s, off, n),
        Endianness::BigEndian => be_uint(s, off, n),
    }
}

/// The two's-complement signed integer held by `n` bytes of `s` at `off`,
/// in the given byte order.
pub open spec fn sint_at(s: Seq<u8>, off: int, n: nat, en: Endianness) -> int {
    let u = uint_at(s, off, n, en);
    if u >= pow2((8 * n - 1) as nat) {
        u - pow2(8 * n)
    } else {
        u
    }
}

/// An unsigned read of `n` in-bounds bytes lies below `2^(8n)`.
pub proof fn lemma_uint_at_bound(s: Seq<u8>, off: int, n: nat, en: Endianness)
    requires
        0 <= off,
        off + n <= s.len(),
    ensures
        0 <= uint_at(s, off, n, en) < pow2(8 * n),
    decreases n,
{
    if n == 0 {
        assert(pow2(0) == 1) by {
            vstd::arithmetic::power2::lemma2_to64();
            vstd::arithmetic::power2::lemma2_to64_rest();
        }
    } else {
        lemma_uint_at_bound(s, off + 1, (n - 1) as nat, en);
        lemma_uint_at_bound(s, off, (n - 1) as nat, en);
        assert(pow2(8 * n) == pow2(8) * pow2((8 * (n - 1)) as nat)) by {
            vstd::arithmetic::power2::lemma_pow2_adds(8nat, (8 * (n - 1)) as nat);
        }
        assert(pow2(8) == 256) by {
            vstd::arithmetic::power2::lemma2_to64();
            vstd::arithmetic::power2::lemma2_to64_rest();
        }
        match en {
            Endianness::LittleEndian => {
                assert(le_uint(s, off, n) == s[off] + 256 * le_uint(s, off + 1, (n - 1) as nat));
                assert(256 * le_uint(s, off + 1, (n - 1) as nat) <= 256 * (pow2(
                    8 * (n - 1) as nat,
                ) - 1)) by (nonlinear_arith)
                    requires
                        le_uint(s, off + 1, (n - 1) as nat) <= pow2(8 * (n - 1) as nat) - 1,
                ;
            },
            Endianness::BigEndian => {
                assert(be_uint(s, off, n) == s[off + n - 1] + 256 * be_uint(
                    s,
                    off,
                    (n - 1) as nat,
                ));
                assert(256 * be_uint(s, off, (n - 1) as nat) <= 256 * (pow2(
                    8 * (n - 1) as nat,
                ) - 1)) by (nonlinear_arith)
                    requires
                        be_uint(s, off, (n - 1) as nat) <= pow2(8 * (n - 1) as nat) - 1,
                ;
            },
        }
    }
}

/// The unsigned reads of one, two, four and eight bytes, written out as
/// explicit byte sums.
pub proof fn lemma_uint_small(s: Seq<u8>, off: int)
    ensures
        le_uint(s, off, 1) == s[off],
        be_uint(s, off, 1) == s[off],
        le_uint(s, off, 2) == s[off] + 256 * s[off + 1],
        be_uint(s, off, 2) == s[off + 1] + 256 * s[off],
        le_uint(s, off, 4) == s[off] + 256 * (s[off + 1] + 256 * (s[off + 2] + 256 * s[off + 3])),
        be_uint(s, off, 4) == s[off + 3] + 256 * (s[off + 2] + 256 * (s[off + 1] + 256 * s[off])),
        le_uint(s, off, 8) == s[off] + 256 * (s[off + 1] + 256 * (s[off + 2] + 256 * (s[off + 3]
            + 256 * (s[off + 4] + 256 * (s[off + 5] + 256 * (s[off + 6] + 256 * s[off + 7])))))),
        be_uint(s, off, 8) == s[off + 7] + 256 * (s[off + 6] + 256 * (s[off + 5] + 256 * (s[off
            + 4] + 256 * (s[off + 3] + 256 * (s[off + 2] + 256 * (s[off + 1] + 256 * s[off])))))),
{
    reveal_with_fuel(le_uint, 9);
    reveal_with_fuel(be_uint, 9);
}

/// A buffer of fetched bytes with a read position, decoding scalars in the
/// byte order of the file.
pub struct EndianAwareReader {
    buf: Vec<u8>,
    pos: usize,
    endianness: Endianness,
}

impl EndianAwareReader {
    /// The bytes this reader decodes.
    pub closed spec fn bytes(&self) -> Seq<u8> {
        self.buf@
    }

    /// The current read position.
    pub closed spec fn position(&self) -> int {
        self.pos as int
    }

    /// The byte order used for scalar decoding.
    pub closed spec fn endian(&self) -> Endianness {
        self.endianness
    }

    /// Wrap a buffer of bytes for decoding in the given byte order.
    pub fn new(buf: Vec<u8>, endianness: Endianness) -> (r: EndianAwareReader)
        ensures
            r.bytes() == buf@,
            r.position() == 0,
            r.endian() == endianness,
    {
        EndianAwareReader { buf, pos: 0, endianness }
    }

    /// Read one byte, advancing the position.
    pub fn read_u8(&mut self) -> (r: Result<u8, TiffError>)
        ensures
            final (self).bytes() == old(self).bytes(),
            final (self).endian() == old(self).endian(),
            old(self).position() + 1 <= old(self).bytes().len() ==> {
                &&& r matches Ok(v) && v == old(self).bytes()[old(self).position()]
                &&& final (self).position() == old(self).position() + 1
            },
            old(self).position() + 1 > old(self).bytes().len() ==> r is Err,
    {
        if self.pos < self.buf.len() {
            let v = self.buf[self.pos];
            self.pos = self.pos + 1;
            Ok(v)
        } else {
            Err(TiffError::EndOfFile(1, 0))
        }
    }

    /// Read one byte as a signed integer, advancing the position.
    pub fn read_i8(&mut self) -> (r: Result<i8, TiffError>)
        ensures
            final (self).bytes() == old(self).bytes(),
            final (self).endian() == old(self).endian(),
            old(self).position() + 1 <= old(self).bytes().len() ==> {
                &&& r matches Ok(v) && v as int == sint_at(
                    old(self).bytes(),
                    old(self).position(),
                    1,
                    old(self).endian(),
                )
                &&& final (self).position() == old(self).position() + 1
            },
            old(self).position() + 1 > old(self).bytes().len() ==> r is Err,
    {
        proof {
            vstd::arithmetic::power2::lemma2_to64();
            vstd::arithmetic::power2::lemma2_to64_rest();
        }
        if self.pos < self.buf.len() {
            let v = self.buf[self.pos];
            self.pos = self.pos + 1;
            let s: i8 = if v < 128 {
                v as i8
            } else {
                ((v as i16) - 256) as i8
            };
            proof {
                lemma_uint_small(old(self).bytes(), old(self).position());
            }
            Ok(s)
        } else {
            Err(TiffError::EndOfFile(1, 0))
        }
    }

    /// Read a u16 in the stored byte order, advancing the position.
    pub fn read_u16(&mut self) -> (r: Result<u16, TiffError>)
        ensures
            final (self).bytes() == old(self).bytes(),
            final (self).endian() == old(self).endian(),
            old(self).position() + 2 <= old(self).bytes().len() ==> {
                &&& r matches Ok(v) && v as int == uint_at(
                    old(self).bytes(),
                    old(self).position(),
                    2,
                    old(self).endian(),
                )
                &&& final (self).position() == old(self).position() + 2
            },
            old(self).position() + 2 > old(self).bytes().len() ==> r is Err,
    {
        if self.buf.len() >= 2 && self.pos <= self.buf.len() - 2 {
            proof {
                lemma_uint_small(self.buf@, self.pos as int);
            }
            let b0 = self.buf[self.pos] as u16;
            let b1 = self.buf[self.pos + 1] as u16;
            self.pos = self.pos + 2;
            let v = match self.endianness {
                Endianness::LittleEndian => b0 + 256 * b1,
                Endianness::BigEndian => b1 + 256 * b0,
            };
            Ok(v)
        } else {
            Err(TiffError::EndOfFile(2, 0))
        }
    }

    /// Read an i16 in the stored byte order, advancing the position.
    pub fn read_i16(&mut self) -> (r: Result<i16, TiffError>)
        ensures
            final (self).bytes() == old(self).bytes(),
            final (self).endian() == old(self).endian(),
            old(self).position() + 2 <= old(self).bytes().len() ==> {
                &&& r matches Ok(v) && v as int == sint_at(
                    old(self).bytes(),
                    old(self).position(),
                    2,
                    old(self).endian(),
                )
                &&& final (self).position() == old(self).position() + 2
            },
            old(self).position() + 2 > old(self).bytes().len() ==> r is Err,
    {
        proof {
            vstd::arithmetic::power2::lemma2_to64();
            vstd::arithmetic::power2::lemma2_to64_rest();
        }
        match self.read_u16() {
            Ok(u) => {
                let s: i16 = if u < 32768 {
                    u as i16
                } else {
                    ((u as i32) - 65536) as i16
                };
                Ok(s)
            },
            Err(e) => Err(e),
        }
    }

    /// Read a u32 in the stored byte order, advancing the position.
    pub fn read_u32(&mut self) -> (r: Result<u32, TiffError>)
        ensures
            final (self).bytes() == old(self).bytes(),
            final (self).endian() == old(self).endian(),
            old(self).position() + 4 <= old(self).bytes().len() ==> {
                &&& r matches Ok(v) && v as int == uint_at(
                    old(self).bytes(),
                    old(self).position(),
                    4,
                    old(self).endian(),
                )
                &&& final (self).position() == old(self).position() + 4
            },
            old(self).position() + 4 > old(self).bytes().len() ==> r is Err,
    {
        if self.buf.len() >= 4 && self.pos <= self.buf.len() - 4 {
            proof {
                lemma_uint_small(self.buf@, self.pos as int);
            }
            let b0 = self.buf[self.pos] as u32;
            let b1 = self.buf[self.pos + 1] as u32;
            let b2 = self.buf[self.pos + 2] as u32;
            let b3 = self.buf[self.pos + 3] as u32;
            self.pos = self.pos + 4;
            let v = match self.endianness {
                Endianness::LittleEndian => b0 + 256 * (b1 + 256 * (b2 + 256 * b3)),
                Endianness::BigEndian => b3 + 256 * (b2 + 256 * (b1 + 256 * b0)),
            };
            Ok(v)
        } else {
            Err(TiffError::EndOfFile(4, 0))
        }
    }

    /// Read an i32 in the stored byte order, advancing the position.
    pub fn read_i32(&mut self) -> (r: Result<i32, TiffError>)
        ensures
            final (self).bytes() == old(self).bytes(),
            final (self).endian() == old(self).endian(),
            old(self).position() + 4 <= old(self).bytes().len() ==> {
                &&& r matches Ok(v) && v as int == sint_at(
                    old(self).bytes(),
                    old(self).position(),
                    4,
                    old(self).endian(),
                )
                &&& final (self).position() == old(self).position() + 4
            },
            old(self).position() + 4 > old(self).bytes().len() ==> r is Err,
    {
        proof {
            vstd::arithmetic::power2::lemma2_to64();
            vstd::arithmetic::power2::lemma2_to64_rest();
        }
        match self.read_u32() {
            Ok(u) => {
                let s: i32 = if u < 2147483648 {
                    u as i32
                } else {
                    ((u as i64) - 4294967296) as i32
                };
                Ok(s)
            },
            Err(e) => Err(e),
        }
    }

    /// Read a u64 in the stored byte order, advancing the position.
    pub fn read_u64(&mut self) -> (r: Result<u64, TiffError>)
        ensures
            final (self).bytes() == old(self).bytes(),
            final (self).endian() == old(self).endian(),
            old(self).position() + 8 <= old(self).bytes().len() ==> {
                &&& r matches Ok(v) && v as int == uint_at(
                    old(self).bytes(),
                    old(self).position(),
                    8,
                    old(self).endian(),
                )
                &&& final (self).position() == old(self).position() + 8
            },
            old(self).position() + 8 > old(self).bytes().len() ==> r is Err,
    {
        if self.buf.len() >= 8 && self.pos <= self.buf.len() - 8 {
            proof {
                lemma_uint_small(self.buf@, self.pos as int);
            }
            let b0 = self.buf[self.pos] as u64;
            let b1 = self.buf[self.pos + 1] as u64;
            let b2 = self.buf[self.pos + 2] as u64;
            let b3 = self.buf[self.pos + 3] as u64;
            let b4 = self.buf[self.pos + 4] as u64;
            let b5 = self.buf[self.pos + 5] as u64;
            let b6 = self.buf[self.pos + 6] as u64;
            let b7 = self.buf[self.pos + 7] as u64;
            self.pos = self.pos + 8;
            let v = match self.endianness {
                Endianness::LittleEndian => b0 + 256 * (b1 + 256 * (b2 + 256 * (b3 + 256 * (b4
                    + 256 * (b5 + 256 * (b6 + 256 * b7)))))),
                Endianness::BigEndian => b7 + 256 * (b6 + 256 * (b5 + 256 * (b4 + 256 * (b3 + 256
                    * (b2 + 256 * (b1 + 256 * b0)))))),
            };
            Ok(v)
        } else {
            Err(TiffError::EndOfFile(8, 0))
        }
    }

    /// Read an i64 in the stored byte order, advancing the position.
    pub fn read_i64(&mut self) -> (r: Result<i64, TiffError>)
        ensures
            final (self).bytes() == old(self).bytes(),
            final (self).endian() == old(self).endian(),
            old(self).position() + 8 <= old(self).bytes().len() ==> {
                &&& r matches Ok(v) && v as int == sint_at(
                    old(self).bytes(),
                    old(self).position(),
                    8,
                    old(self).endian(),
                )
                &&& final (self).position() == old(self).position() + 8
            },
            old(self).position() + 8 > old(self).bytes().len() ==> r is Err,
    {
        proof {
            vstd::arithmetic::power2::lemma2_to64();
            vstd::arithmetic::power2::lemma2_to64_rest();
        }
        match self.read_u64() {
            Ok(u) => {
                let s: i64 = if u < 9223372036854775808 {
                    u as i64
                } else {
                    -((u64::MAX - u) as i64) - 1
                };
                Ok(s)
            },
            Err(e) => Err(e),
        }
    }

    /// Read the bit pattern of a 32-bit float in the stored byte order.
    pub fn read_f32_bits(&mut self) -> (r: Result<u32, TiffError>)
        ensures
            final (self).bytes() == old(self).bytes(),
            final (self).endian() == old(self).endian(),
            old(self).position() + 4 <= old(self).bytes().len() ==> {
                &&& r matches Ok(v) && v as int == uint_at(
                    old(self).bytes(),
                    old(self).position(),
                    4,
                    old(self).endian(),
                )
                &&& final (self).position() == old(self).position() + 4
            },
            old(self).position() + 4 > old(self).bytes().len() ==> r is Err,
    {
        self.read_u32()
    }

    /// Read the bit pattern of a 64-bit float in the stored byte order.
    pub fn read_f64_bits(&mut self) -> (r: Result<u64, TiffError>)
        ensures
            final (self).bytes() == old(self).bytes(),
            final (self).endian() == old(self).endian(),
            old(self).position() + 8 <= old(self).bytes().len() ==> {
                &&& r matches Ok(v) && v as int == uint_at(
                    old(self).bytes(),
                    old(self).position(),
                    8,
                    old(self).endian(),
                )
                &&& final (self).position() == old(self).position() + 8
            },
            old(self).position() + 8 > old(self).bytes().len() ==> r is Err,
    {
        self.read_u64()
    }

    /// The bytes not yet read, as a fresh buffer.
    #[verifier::loop_isolation(false)]
    pub fn remaining_bytes(&self) -> (r: Vec<u8>)
        ensures
            r@ == self.bytes().skip(
                if self.position() <= self.bytes().len() {
                    self.position()
                } else {
                    self.bytes().len() as int
                },
            ),
    {
        let mut out: Vec<u8> = Vec::new();
        let mut i: usize = if self.pos <= self.buf.len() {
            self.pos
        } else {
            self.buf.len()
        };
        let ghost start = i as int;
        while i < self.buf.len()
            invariant
                start <= i <= self.buf@.len(),
                out@ == self.buf@.subrange(start, i as int),
            decreases self.buf@.len() - i,
        {
            out.push(self.buf[i]);
            i = i + 1;
        }
        proof {
            assert(out@ =~= self.bytes().skip(start));
        }
        out
    }
}

/// A seekable cursor over a metadata source: a file offset plus the byte
/// order of the file. Reads fetch from the source and decode with the
/// stored byte order.
pub struct MetadataCursor {
    offset: u64,
    endianness: Endianness,
}

impl MetadataCursor {
    /// The current file offset.
    pub closed spec fn position_spec(&self) -> u64 {
        self.offset
    }

    /// The byte order used for scalar decoding.
    pub closed spec fn endian(&self) -> Endianness {
        self.endianness
    }

    /// A cursor at the start of the file.
    pub fn new(endianness: Endianness) -> (r: MetadataCursor)
        ensures
            r.position_spec() == 0,
            r.endian() == endianness,
    {
        MetadataCursor { offset: 0, endianness }
    }

    /// A cursor at the given file offset.
    pub fn new_with_offset(endianness: Endianness, offset: u64) -> (r: MetadataCursor)
        ensures
            r.position_spec() == offset,
            r.endian() == endianness,
    {
        MetadataCursor { offset, endianness }
    }

    /// Move the cursor to an absolute file offset.
    pub fn seek(&mut self, offset: u64)
        ensures
            final (self).position_spec() == offset,
            final (self).endian() == old(self).endian(),
    {
        self.offset = offset;
    }

    /// Advance the cursor, saturating at the largest offset.
    pub fn advance(&mut self, amount: u64)
        ensures
            final (self).position_spec() == if old(self).position_spec() + amount <= u64::MAX {
                old(self).position_spec() + amount
            } else {
                u64::MAX as int
            },
            final (self).endian() == old(self).endian(),
    {
        if amount <= u64::MAX - self.offset {
            self.offset = self.offset + amount;
        } else {
            self.offset = u64::MAX;
        }
    }

    /// The current file offset.
    pub fn position(&self) -> (r: u64)
        ensures
            r == self.position_spec(),
    {
        self.offset
    }

    /// Fetch `length` bytes at the cursor and hand them to an endian-aware
    /// reader; the cursor advances past them. The source clips a range that
    /// runs past its end, so the reader may hold fewer bytes than asked.
    pub fn read<F: MetadataFetch>(&mut self, f: &mut F, length: u64) -> (r: Result<
        EndianAwareReader,
        TiffError,
    >)
        ensures
            final (f).contents() == old(f).contents(),
            final (f).reliable() == old(f).reliable(),
            final (self).endian() == old(self).endian(),
            (old(f).reliable() && old(self).position_spec() + length <= u64::MAX) ==> r is Ok,
            (r matches Ok(reader) ==> {
                &&& old(self).position_spec() + length <= u64::MAX
                &&& reader.bytes() == clipped(
                    old(f).contents(),
                    old(self).position_spec() as int,
                    old(self).position_spec() + length,
                )
                &&& reader.position() == 0
                &&& reader.endian() == old(self).endian()
                &&& final (self).position_spec() == old(self).position_spec() + length
            }),
    {
        if length > u64::MAX - self.offset {
            return Err(TiffError::EndOfFile(length, 0));
        }
        let start = self.offset;
        let end = self.offset + length;
        self.offset = end;
        match f.fetch(start, end) {
            Ok(buf) => Ok(EndianAwareReader::new(buf, self.endianness)),
            Err(e) => Err(e),
        }
    }

    /// Read one byte at the cursor.
    pub fn read_u8<F: MetadataFetch>(&mut self, f: &mut F) -> (r: Result<u8, TiffError>)
        ensures
            final (f).contents() == old(f).contents(),
            final (f).reliable() == old(f).reliable(),
            final (self).endian() == old(self).endian(),
            (old(f).reliable() && old(self).position_spec() + 1 <= old(f).contents().len()
                && old(f).contents().len() <= u64::MAX) ==> r is Ok,
            (r matches Ok(v) ==> {
                &&& old(self).position_spec() + 1 <= old(f).contents().len()
                &&& v == old(f).contents()[old(self).position_spec() as int]
                &&& final (self).position_spec() == old(self).position_spec() + 1
            }),
    {
        match self.read(f, 1) {
            Ok(mut reader) => {
                proof {
                    lemma_uint_small(reader.bytes(), 0);
                    lemma_uint_small(old(f).contents(), old(self).position_spec() as int);
                }
                reader.read_u8()
            },
            Err(e) => Err(e),
        }
    }

    /// Read one signed byte at the cursor.
    pub fn read_i8<F: MetadataFetch>(&mut self, f: &mut F) -> (r: Result<i8, TiffError>)
        ensures
            final (f).contents() == old(f).contents(),
            final (f).reliable() == old(f).reliable(),
            final (self).endian() == old(self).endian(),
            (old(f).reliable() && old(self).position_spec() + 1 <= old(f).contents().len()
                && old(f).contents().len() <= u64::MAX) ==> r is Ok,
            (r matches Ok(v) ==> {
                &&& old(self).position_spec() + 1 <= old(f).contents().len()
                &&& v as int == sint_at(
                    old(f).contents(),
                    old(self).position_spec() as int,
                    1,
                    old(self).endian(),
                )
                &&& final (self).position_spec() == old(self).position_spec() + 1
            }),
    {
        match self.read(f, 1) {
            Ok(mut reader) => {
                proof {
                    lemma_uint_small(reader.bytes(), 0);
                    lemma_uint_small(old(f).contents(), old(self).position_spec() as int);
                }
                reader.read_i8()
            },
            Err(e) => Err(e),
        }
    }

    /// Read a u16 at the cursor, in the byte order of the file.
    pub fn read_u16<F: MetadataFetch>(&mut self, f: &mut F) -> (r: Result<u16, TiffError>)
        ensures
            final (f).contents() == old(f).contents(),
            final (f).reliable() == old(f).reliable(),
            final (self).endian() == old(self).endian(),
            (old(f).reliable() && old(self).position_spec() + 2 <= old(f).contents().len()
                && old(f).contents().len() <= u64::MAX) ==> r is Ok,
            (r matches Ok(v) ==> {
                &&& old(self).position_spec() + 2 <= old(f).contents().len()
                &&& v as int == uint_at(
                    old(f).contents(),
                    old(self).position_spec() as int,
                    2,
                    old(self).endian(),
                )
                &&& final (self).position_spec() == old(self).position_spec() + 2
            }),
    {
        match self.read(f, 2) {
            Ok(mut reader) => {
                proof {
                    lemma_uint_small(reader.bytes(), 0);
                    lemma_uint_small(old(f).contents(), old(self).position_spec() as int);
                }
                reader.read_u16()
            },
            Err(e) => Err(e),
        }
    }

    /// Read an i16 at the cursor, in the byte order of the file.
    pub fn read_i16<F: MetadataFetch>(&mut self, f: &mut F) -> (r: Result<i16, TiffError>)
        ensures
            final (f).contents() == old(f).contents(),
            final (f).reliable() == old(f).reliable(),
            final (self).endian() == old(self).endian(),
            (old(f).reliable() && old(self).position_spec() + 2 <= old(f).contents().len()
                && old(f).contents().len() <= u64::MAX) ==> r is Ok,
            (r matches Ok(v) ==> {
                &&& old(self).position_spec() + 2 <= old(f).contents().len()
                &&& v as int == sint_at(
                    old(f).contents(),
                    old(self).position_spec() as int,
                    2,
                    old(self).endian(),
                )
                &&& final (self).position_spec() == old(self).position_spec() + 2
            }),
    {
        match self.read(f, 2) {
            Ok(mut reader) => {
                proof {
                    lemma_uint_small(reader.bytes(), 0);
                    lemma_uint_small(old(f).contents(), old(self).position_spec() as int);
                }
                reader.read_i16()
            },
            Err(e) => Err(e),
        }
    }

    /// Read a u32 at the cursor, in the byte order of the file.
    pub fn read_u32<F: MetadataFetch>(&mut self, f: &mut F) -> (r: Result<u32, TiffError>)
        ensures
            final (f).contents() == old(f).contents(),
            final (f).reliable() == old(f).reliable(),
            final (self).endian() == old(self).endian(),
            (old(f).reliable() && old(self).position_spec() + 4 <= old(f).contents().len()
                && old(f).contents().len() <= u64::MAX) ==> r is Ok,
            (r matches Ok(v) ==> {
                &&& old(self).position_spec() + 4 <= old(f).contents().len()
                &&& v as int == uint_at(
                    old(f).contents(),
                    old(self).position_spec() as int,
                    4,
                    old(self).endian(),
                )
                &&& final (self).position_spec() == old(self).position_spec() + 4
            }),
    {
        match self.read(f, 4) {
            Ok(mut reader) => {
                proof {
                    lemma_uint_small(reader.bytes(), 0);
                    lemma_uint_small(old(f).contents(), old(self).position_spec() as int);
                }
                reader.read_u32()
            },
            Err(e) => Err(e),
        }
    }

    /// Read an i32 at the cursor, in the byte order of the file.
    pub fn read_i32<F: MetadataFetch>(&mut self, f: &mut F) -> (r: Result<i32, TiffError>)
        ensures
            final (f).contents() == old(f).contents(),
            final (f).reliable() == old(f).reliable(),
            final (self).endian() == old(self).endian(),
            (old(f).reliable() && old(self).position_spec() + 4 <= old(f).contents().len()
                && old(f).contents().len() <= u64::MAX) ==> r is Ok,
            (r matches Ok(v) ==> {
                &&& old(self).position_spec() + 4 <= old(f).contents().len()
                &&& v as int == sint_at(
                    old(f).contents(),
                    old(self).position_spec() as int,
                    4,
                    old(self).endian(),
                )
                &&& final (self).position_spec() == old(self).position_spec() + 4
            }),
    {
        match self.read(f, 4) {
            Ok(mut reader) => {
                proof {
                    lemma_uint_small(reader.bytes(), 0);
                    lemma_uint_small(old(f).contents(), old(self).position_spec() as int);
                }
                reader.read_i32()
            },
            Err(e) => Err(e),
        }
    }

    /// Read a u64 at the cursor, in the byte order of the file.
    pub fn read_u64<F: MetadataFetch>(&mut self, f: &mut F) -> (r: Result<u64, TiffError>)
        ensures
            final (f).contents() == old(f).contents(),
            final (f).reliable() == old(f).reliable(),
            final (self).endian() == old(self).endian(),
            (old(f).reliable() && old(self).position_spec() + 8 <= old(f).contents().len()
                && old(f).contents().len() <= u64::MAX) ==> r is Ok,
            (r matches Ok(v) ==> {
                &&& old(self).position_spec() + 8 <= old(f).contents().len()
                &&& v as int == uint_at(
                    old(f).contents(),
                    old(self).position_spec() as int,
                    8,
                    old(self).endian(),
                )
                &&& final (self).position_spec() == old(self).position_spec() + 8
            }),
    {
        match self.read(f, 8) {
            Ok(mut reader) => {
                proof {
                    lemma_uint_small(reader.bytes(), 0);
                    lemma_uint_small(old(f).contents(), old(self).position_spec() as int);
                }
                reader.read_u64()
            },
            Err(e) => Err(e),
        }
    }

    /// Read an i64 at the cursor, in the byte order of the file.
    pub fn read_i64<F: MetadataFetch>(&mut self, f: &mut F) -> (r: Result<i64, TiffError>)
        ensures
            final (f).contents() == old(f).contents(),
            final (f).reliable() == old(f).reliable(),
            final (self).endian() == old(self).endian(),
            (old(f).reliable() && old(self).position_spec() + 8 <= old(f).contents().len()
                && old(f).contents().len() <= u64::MAX) ==> r is Ok,
            (r matches Ok(v) ==> {
                &&& old(self).position_spec() + 8 <= old(f).contents().len()
                &&& v as int == sint_at(
                    old(f).contents(),
                    old(self).position_spec() as int,
                    8,
                    old(self).endian(),
                )
                &&& final (self).position_spec() == old(self).position_spec() + 8
            }),
    {
        match self.read(f, 8) {
            Ok(mut reader) => {
                proof {
                    lemma_uint_small(reader.bytes(), 0);
                    lemma_uint_small(old(f).contents(), old(self).position_spec() as int);
                }
                reader.read_i64()
            },
            Err(e) => Err(e),
        }
    }

    /// Read the bit pattern of a 32-bit float at the cursor.
    pub fn read_f32_bits<F: MetadataFetch>(&mut self, f: &mut F) -> (r: Result<u32, TiffError>)
        ensures
            final (f).contents() == old(f).contents(),
            final (f).reliable() == old(f).reliable(),
            final (self).endian() == old(self).endian(),
            (old(f).reliable() && old(self).position_spec() + 4 <= old(f).contents().len()
                && old(f).contents().len() <= u64::MAX) ==> r is Ok,
            (r matches Ok(v) ==> {
                &&& old(self).position_spec() + 4 <= old(f).contents().len()
                &&& v as int == uint_at(
                    old(f).contents(),
                    old(self).position_spec() as int,
                    4,
                    old(self).endian(),
                )
                &&& final (self).position_spec() == old(self).position_spec() + 4
            }),
    {
        self.read_u32(f)
    }

    /// Read the bit pattern of a 64-bit float at the cursor.
    pub fn read_f64_bits<F: MetadataFetch>(&mut self, f: &mut F) -> (r: Result<u64, TiffError>)
        ensures
            final (f).contents() == old(f).contents(),
            final (f).reliable() == old(f).reliable(),
            final (self).endian() == old(self).endian(),
            (old(f).reliable() && old(self).position_spec() + 8 <= old(f).contents().len()
                && old(f).contents().len() <= u64::MAX) ==> r is Ok,
            (r matches Ok(v) ==> {
                &&& old(self).position_spec() + 8 <= old(f).contents().len()
                &&& v as int == uint_at(
                    old(f).contents(),
                    old(self).position_spec() as int,
                    8,
                    old(self).endian(),
                )
                &&& final (self).position_spec() == old(self).position_spec() + 8
            }),
    {
        self.read_u64(f)
    }
}

} // verus!
