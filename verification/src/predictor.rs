//! Reversal of the predictors a TIFF writer applied before compression:
//! horizontal differencing, the floating point byte shuffle, and the
//! byte-order fixup that follows decoding.

use vstd::arithmetic::power2::pow2;
use vstd::prelude::*;

use crate::cursor::{uint_at, Endianness};
use crate::error::TiffError;
use crate::tags::PlanarConfiguration;

verus! {

/// The slice of the directory a tile decoder needs to undo a predictor:
/// the file's byte order, the image and tile geometry, and the sample
/// layout.
#[derive(Debug, Clone, Copy)]
pub struct PredictorInfo {
    /// The byte order of the file.
    pub endianness: Endianness,
    /// The number of columns in the image.
    pub image_width: u32,
    /// The number of rows in the image.
    pub image_height: u32,
    /// The nominal tile width.
    pub chunk_width: u32,
    /// The nominal tile height.
    pub chunk_height: u32,
    /// The bit depth of every sample.
    pub bits_per_sample: u16,
    /// The number of components per pixel.
    pub samples_per_pixel: u16,
    /// Whether components are interleaved or stored in separate planes.
    pub planar_configuration: PlanarConfiguration,
}

impl PredictorInfo {
    /// The physical width in pixels of the tile in column `x`: the last
    /// column is clipped to the image edge.
    pub fn output_width(&self, x: usize) -> (r: Result<u32, TiffError>)
        ensures
            (r matches Ok(w) ==> {
                &&& self.chunk_width > 0
                &&& x * self.chunk_width < self.image_width
                &&& w == if (x + 1) * self.chunk_width <= self.image_width {
                    self.chunk_width as int
                } else {
                    self.image_width - x * self.chunk_width
                }
            }),
            (r is Err <==> !(self.chunk_width > 0 && x * self.chunk_width < self.image_width)),
    {
        if self.chunk_width == 0 {
            return Err(TiffError::OutOfBounds);
        }
        proof {
            assert(x * self.chunk_width <= u64::MAX as int * u32::MAX as int)
                by (nonlinear_arith)
                requires
                    0 <= x <= u64::MAX && 0 <= self.chunk_width <= u32::MAX,
            ;
        }
        let start128: u128 = x as u128 * self.chunk_width as u128;
        if start128 >= self.image_width as u128 {
            return Err(TiffError::OutOfBounds);
        }
        let start = start128 as u64;
        proof {
            assert((x + 1) * self.chunk_width == x * self.chunk_width + self.chunk_width)
                by (nonlinear_arith);
        }
        if self.image_width as u64 - start >= self.chunk_width as u64 {
            Ok(self.chunk_width)
        } else {
            Ok((self.image_width as u64 - start) as u32)
        }
    }

    /// The physical height in rows of the tile in row `y`: the last row
    /// is clipped to the image edge.
    pub fn output_height(&self, y: usize) -> (r: Result<u32, TiffError>)
        ensures
            (r matches Ok(h) ==> {
                &&& self.chunk_height > 0
                &&& y * self.chunk_height < self.image_height
                &&& h == if (y + 1) * self.chunk_height <= self.image_height {
                    self.chunk_height as int
                } else {
                    self.image_height - y * self.chunk_height
                }
            }),
            (r is Err <==> !(self.chunk_height > 0 && y * self.chunk_height
                < self.image_height)),
    {
        if self.chunk_height == 0 {
            return Err(TiffError::OutOfBounds);
        }
        proof {
            assert(y * self.chunk_height <= u64::MAX as int * u32::MAX as int)
                by (nonlinear_arith)
                requires
                    0 <= y <= u64::MAX && 0 <= self.chunk_height <= u32::MAX,
            ;
        }
        let start128: u128 = y as u128 * self.chunk_height as u128;
        if start128 >= self.image_height as u128 {
            return Err(TiffError::OutOfBounds);
        }
        let start = start128 as u64;
        proof {
            assert((y + 1) * self.chunk_height == y * self.chunk_height + self.chunk_height)
                by (nonlinear_arith);
        }
        if self.image_height as u64 - start >= self.chunk_height as u64 {
            Ok(self.chunk_height)
        } else {
            Ok((self.image_height as u64 - start) as u32)
        }
    }
}

/// The byte order of the machine this library runs on.
///
/// Relies on u16::from_ne_bytes: the native byte order puts the low byte
/// first exactly on a little-endian machine.
#[verifier::external_body]
pub fn host_endianness() -> Endianness {
    if u16::from_ne_bytes([1, 0]) == 1 {
        Endianness::LittleEndian
    } else {
        Endianness::BigEndian
    }
}

/// A buffer with the byte order of every `size`-byte element reversed.
pub open spec fn swapped(s: Seq<u8>, size: int) -> Seq<u8> {
    Seq::new(s.len(), |i: int| s[(i / size) * size + (size - 1 - i % size)])
}


/// Whether `out` is `inp` with the byte-order fixup applied: unchanged
/// when the data is already in host order or its samples are single
/// bytes, otherwise every sample's bytes reversed.
pub open spec fn sp_endian_fixed(
    en: Endianness,
    host: Endianness,
    bits_per_sample: u16,
    inp: Seq<u8>,
    out: Seq<u8>,
) -> bool {
    if en == host || !(bits_per_sample == 16 || bits_per_sample == 32 || bits_per_sample == 64)
        || inp.len() as int % ((bits_per_sample / 8) as int) != 0 {
        out == inp
    } else {
        out == swapped(inp, (bits_per_sample / 8) as int)
    }
}

/// Reverse the byte order of every sample when the data's byte order
/// differs from `host`. Data already in host order, and data whose
/// samples are single bytes, pass through untouched.
#[verifier::loop_isolation(false)]
pub fn fix_endianness(buf: &mut Vec<u8>, en: Endianness, host: Endianness, bits_per_sample: u16)
    ensures
        final (buf)@.len() == old(buf)@.len(),
        (en == host || !(bits_per_sample == 16 || bits_per_sample == 32 || bits_per_sample == 64)
            || old(buf)@.len() as int % ((bits_per_sample / 8) as int) != 0) ==> final (buf)@
            == old(buf)@,
        (en != host && (bits_per_sample == 16 || bits_per_sample == 32 || bits_per_sample == 64)
            && old(buf)@.len() as int % ((bits_per_sample / 8) as int) == 0) ==> final (buf)@
            == swapped(old(buf)@, (bits_per_sample / 8) as int),
        sp_endian_fixed(en, host, bits_per_sample, old(buf)@, final (buf)@),
{
    if en == host {
        return ;
    }
    let size: usize = if bits_per_sample == 16 {
        2
    } else if bits_per_sample == 32 {
        4
    } else if bits_per_sample == 64 {
        8
    } else {
        return ;
    };
    if buf.len() % size != 0 {
        return ;
    }
    let ghost orig = buf@;
    let n = buf.len();
    let mut out: Vec<u8> = Vec::new();
    let mut i: usize = 0;
    while i < n
        invariant
            i <= n,
            n as int % (size as int) == 0,
            buf@ == orig,
            out@.len() == i,
            forall|k: int|
                0 <= k < i ==> out@[k] == orig[(k / (size as int)) * (size as int) + (size - 1 - k
                    % (size as int))],
        decreases n - i,
    {
        let e = i / size;
        let r = i % size;
        proof {
            assert(e * size + size <= n && e * size + (size - 1 - r) < n && e * size + r == i)
                by (nonlinear_arith)
                requires
                    size > 0 && i < n && n as int % (size as int) == 0 && e == i as int / (
                    size as int) && r == i as int % (size as int),
            ;
        }
        let src = e * size + (size - 1 - r);
        out.push(buf[src]);
        i = i + 1;
    }
    *buf = out;
    proof {
        assert(buf@ =~= swapped(orig, size as int));
    }
}

/// The unsigned sample value stored at element index `i` of a buffer of
/// `size`-byte samples, in the given byte order.
pub open spec fn sample_at(s: Seq<u8>, i: int, size: int, en: Endianness) -> int {
    uint_at(s, i * size, size as nat, en)
}

/// Undo horizontal differencing in place: within every row, each sample
/// past the first pixel becomes the sum of its stored difference and the
/// sample one pixel to its left in the same channel, wrapping at the
/// sample's bit width. The buffer holds whole rows of `row_samples`
/// samples of `size` bytes each, in the byte order `en`.
#[verifier::loop_isolation(false)]
#[verifier::rlimit(100)]
fn unpredict_rows(
    buf: &mut Vec<u8>,
    row_samples: usize,
    stride: usize,
    size: usize,
    en: Endianness,
) -> (r: Result<(), TiffError>)
    requires
        size == 1 || size == 2 || size == 4 || size == 8,
        stride >= 1,
    ensures
        final (buf)@.len() == old(buf)@.len(),
        (r is Ok <==> (row_samples * size > 0 && old(buf)@.len() as int % ((row_samples
            * size) as int) == 0)),
        (r is Ok ==> forall|i: int|
            0 <= i < old(buf)@.len() as int / (size as int) ==> #[trigger] sample_at(
                final (buf)@,
                i,
                size as int,
                en,
            ) == if i % (row_samples as int) < stride {
                sample_at(old(buf)@, i, size as int, en)
            } else {
                (sample_at(final (buf)@, i - stride, size as int, en) + sample_at(
                    old(buf)@,
                    i,
                    size as int,
                    en,
                )) % (pow2((8 * size) as nat) as int)
            }),
{
    proof {
        assert(row_samples * size <= u64::MAX as int * u64::MAX as int) by (nonlinear_arith)
            requires
                0 <= row_samples <= u64::MAX && 0 <= size <= u64::MAX,
        ;
    }
    let row_bytes: u128 = row_samples as u128 * size as u128;
    if row_bytes == 0 {
        return Err(TiffError::Format(0));
    }
    if buf.len() as u128 % row_bytes != 0 {
        return Err(TiffError::Format(0));
    }
    let ghost orig = buf@;
    let n = buf.len();
    let total_samples = n / size;
    let ghost rb: int = row_samples as int * size as int;
    let ghost rows: int = n as int / rb;
    proof {
        assert(row_bytes as int == rb);
        assert(n as int % rb == 0);
        vstd::arithmetic::div_mod::lemma_fundamental_div_mod(n as int, rb);
        assert(rows * rb == n) by (nonlinear_arith)
            requires
                n as int == rb * (n as int / rb) + n as int % rb && rows == n as int / rb && n
                    as int % rb == 0,
        ;
        assert(rows * row_samples * size == n && size as int * (rows * row_samples as int) == n)
            by (nonlinear_arith)
            requires
                rows * rb == n && rb == row_samples as int * size as int,
        ;
        vstd::arithmetic::div_mod::lemma_div_multiples_vanish(
            rows * row_samples as int,
            size as int,
        );
    }
    let mut idx: usize = 0;
    while idx < total_samples
        invariant
            idx <= total_samples,
            total_samples * size == n,
            buf@.len() == n,
            forall|k: int| idx * size <= k < n ==> buf@[k] == orig[k],
            forall|i: int|
                0 <= i < idx ==> #[trigger] sample_at(buf@, i, size as int, en) == if i % (
                row_samples as int) < stride {
                    sample_at(orig, i, size as int, en)
                } else {
                    (sample_at(buf@, i - stride, size as int, en) + sample_at(
                        orig,
                        i,
                        size as int,
                        en,
                    )) % (pow2((8 * size) as nat) as int)
                },
        decreases total_samples - idx,
    {
        proof {
            assert((idx + 1) * size == idx * size + size) by (nonlinear_arith);
            assert((idx + 1) * size <= total_samples * size) by (nonlinear_arith)
                requires
                    idx + 1 <= total_samples && size > 0,
            ;
        }
        let ghost pre_buf = buf@;
        let j = idx % row_samples;
        proof {
            lemma_sample_eq(pre_buf, orig, idx as int, size as int, en);
            vstd::arithmetic::power2::lemma2_to64();
            vstd::arithmetic::power2::lemma2_to64_rest();
        }
        if j >= stride {
            proof {
                assert(j <= idx) by (nonlinear_arith)
                    requires
                        j == idx as int % (row_samples as int) && row_samples > 0 && idx >= 0,
                ;
                assert(0 <= (idx - stride) * size && (idx - stride) * size + size <= idx * size)
                    by (nonlinear_arith)
                    requires
                        stride >= 1 && size > 0 && idx >= stride,
                ;
            }
            let prev = load_sample(buf, idx - stride, size, en);
            let cur = load_sample(buf, idx, size, en);
            proof {
                lemma_uint_at_bound_local(buf@, (idx - stride) * size, size as int, en);
                lemma_uint_at_bound_local(buf@, idx as int * size, size as int, en);
            }
            let sum = wrapping_add_width(prev, cur, size);
            store_sample(buf, idx, size, en, sum);
            proof {
                lemma_sample_eq(buf@, pre_buf, idx as int - stride, size as int, en);
            }
        }
        idx = idx + 1;
        proof {
            assert forall|i: int| 0 <= i < idx implies #[trigger] sample_at(
                buf@,
                i,
                size as int,
                en,
            ) == if i % (row_samples as int) < stride {
                sample_at(orig, i, size as int, en)
            } else {
                (sample_at(buf@, i - stride, size as int, en) + sample_at(
                    orig,
                    i,
                    size as int,
                    en,
                )) % (pow2((8 * size) as nat) as int)
            } by {
                if i < idx - 1 {
                    assert(0 <= i * size && i * size + size <= (idx - 1) * size)
                        by (nonlinear_arith)
                        requires
                            0 <= i < idx - 1 && size > 0,
                    ;
                    lemma_sample_eq(buf@, pre_buf, i, size as int, en);
                    if i % (row_samples as int) >= stride {
                        assert(stride <= i) by (nonlinear_arith)
                            requires
                                i % (row_samples as int) >= stride && row_samples > 0 && i >= 0,
                        ;
                        assert(0 <= (i - stride) * size && (i - stride) * size + size <= (idx - 1)
                            * size) by (nonlinear_arith)
                            requires
                                stride >= 1 && size > 0 && stride <= i < idx - 1,
                        ;
                        lemma_sample_eq(buf@, pre_buf, i - stride, size as int, en);
                    }
                }
            }
            assert forall|k: int| idx * size <= k < n implies buf@[k] == orig[k] by {
                assert(idx * size >= (idx - 1) * size + size);
            }
        }
    }
    Ok(())
}

/// Two samples agree when the buffers agree on the sample's bytes.
proof fn lemma_sample_eq(a: Seq<u8>, b: Seq<u8>, i: int, size: int, en: Endianness)
    requires
        0 <= i,
        0 < size,
        i * size + size <= a.len(),
        i * size + size <= b.len(),
        forall|k: int| i * size <= k < i * size + size ==> a[k] == b[k],
    ensures
        sample_at(a, i, size, en) == sample_at(b, i, size, en),
{
    lemma_uint_agree(a, b, i * size, size as nat, en);
}

/// A whole in-bounds sample value lies below two to its bit width.
proof fn lemma_uint_at_bound_local(s: Seq<u8>, off: int, size: int, en: Endianness)
    requires
        0 <= off,
        off + size <= s.len(),
        size >= 0,
    ensures
        0 <= uint_at(s, off, size as nat, en) < pow2((8 * size) as nat),
{
    crate::cursor::lemma_uint_at_bound(s, off, size as nat, en);
}

/// Unsigned reads agree on buffers that agree on the bytes read.
proof fn lemma_uint_agree(a: Seq<u8>, b: Seq<u8>, off: int, n: nat, en: Endianness)
    requires
        forall|k: int| off <= k < off + n ==> a[k] == b[k],
    ensures
        uint_at(a, off, n, en) == uint_at(b, off, n, en),
    decreases n,
{
    if n > 0 {
        lemma_uint_agree(a, b, off + 1, (n - 1) as nat, en);
        lemma_uint_agree(a, b, off, (n - 1) as nat, en);
    }
}

/// Load the sample at element index `i` from a buffer of `size`-byte
/// samples.
pub(crate) fn load_sample(buf: &Vec<u8>, i: usize, size: usize, en: Endianness) -> (r: u64)
    requires
        size == 1 || size == 2 || size == 4 || size == 8,
        i * size + size <= buf@.len(),
    ensures
        r == sample_at(buf@, i as int, size as int, en),
{
    let l = buf.len();
    let off = i * size;
    proof {
        crate::cursor::lemma_uint_small(buf@, off as int);
    }
    if size == 1 {
        buf[off] as u64
    } else if size == 2 {
        let b0 = buf[off] as u64;
        let b1 = buf[off + 1] as u64;
        match en {
            Endianness::LittleEndian => b0 + 256 * b1,
            Endianness::BigEndian => b1 + 256 * b0,
        }
    } else if size == 4 {
        let b0 = buf[off] as u64;
        let b1 = buf[off + 1] as u64;
        let b2 = buf[off + 2] as u64;
        let b3 = buf[off + 3] as u64;
        match en {
            Endianness::LittleEndian => b0 + 256 * (b1 + 256 * (b2 + 256 * b3)),
            Endianness::BigEndian => b3 + 256 * (b2 + 256 * (b1 + 256 * b0)),
        }
    } else {
        let b0 = buf[off] as u64;
        let b1 = buf[off + 1] as u64;
        let b2 = buf[off + 2] as u64;
        let b3 = buf[off + 3] as u64;
        let b4 = buf[off + 4] as u64;
        let b5 = buf[off + 5] as u64;
        let b6 = buf[off + 6] as u64;
        let b7 = buf[off + 7] as u64;
        match en {
            Endianness::LittleEndian => b0 + 256 * (b1 + 256 * (b2 + 256 * (b3 + 256 * (b4 + 256
                * (b5 + 256 * (b6 + 256 * b7)))))),
            Endianness::BigEndian => b7 + 256 * (b6 + 256 * (b5 + 256 * (b4 + 256 * (b3 + 256 * (
            b2 + 256 * (b1 + 256 * b0)))))),
        }
    }
}

/// Store value `v` as the sample at element index `i` of a buffer of
/// `size`-byte samples, leaving every other byte untouched.
#[verifier::rlimit(100)]
fn store_sample(buf: &mut Vec<u8>, i: usize, size: usize, en: Endianness, v: u64)
    requires
        size == 1 || size == 2 || size == 4 || size == 8,
        i * size + size <= old(buf)@.len(),
        v < pow2((8 * size) as nat),
    ensures
        final (buf)@.len() == old(buf)@.len(),
        sample_at(final (buf)@, i as int, size as int, en) == v,
        forall|k: int|
            0 <= k < old(buf)@.len() && !(i * size <= k < i * size + size) ==> final (buf)@[k]
                == old(buf)@[k],
{
    proof {
        vstd::arithmetic::power2::lemma2_to64();
        vstd::arithmetic::power2::lemma2_to64_rest();
    }
    let l = buf.len();
    let off = i * size;
    if size == 1 {
        buf[off] = v as u8;
        proof {
            crate::cursor::lemma_uint_small(buf@, off as int);
        }
        return ;
    }
    let b0 = (v & 0xff) as u8;
    let b1 = ((v >> 8) & 0xff) as u8;
    let b2 = ((v >> 16) & 0xff) as u8;
    let b3 = ((v >> 24) & 0xff) as u8;
    let b4 = ((v >> 32) & 0xff) as u8;
    let b5 = ((v >> 40) & 0xff) as u8;
    let b6 = ((v >> 48) & 0xff) as u8;
    let b7 = ((v >> 56) & 0xff) as u8;
    if size == 2 {
        proof {
            assert(v < 65536 ==> v == (v & 0xff) + 256 * ((v >> 8) & 0xff)) by (bit_vector);
            assert((v & 0xff) < 256 && ((v >> 8) & 0xff) < 256) by (bit_vector);
        }
        match en {
            Endianness::LittleEndian => {
                buf[off] = b0;
                buf[off + 1] = b1;
            },
            Endianness::BigEndian => {
                buf[off] = b1;
                buf[off + 1] = b0;
            },
        }
    } else if size == 4 {
        proof {
            assert(v < 4294967296 ==> v == (v & 0xff) + 256 * (((v >> 8) & 0xff) + 256 * (((v
                >> 16) & 0xff) + 256 * ((v >> 24) & 0xff)))) by (bit_vector);
            assert((v & 0xff) < 256 && ((v >> 8) & 0xff) < 256 && ((v >> 16) & 0xff) < 256 && ((v
                >> 24) & 0xff) < 256) by (bit_vector);
        }
        match en {
            Endianness::LittleEndian => {
                buf[off] = b0;
                buf[off + 1] = b1;
                buf[off + 2] = b2;
                buf[off + 3] = b3;
            },
            Endianness::BigEndian => {
                buf[off] = b3;
                buf[off + 1] = b2;
                buf[off + 2] = b1;
                buf[off + 3] = b0;
            },
        }
    } else {
        proof {
            assert(v == (v & 0xff) + 256 * (((v >> 8) & 0xff) + 256 * (((v >> 16) & 0xff) + 256
                * (((v >> 24) & 0xff) + 256 * (((v >> 32) & 0xff) + 256 * (((v >> 40) & 0xff)
                + 256 * (((v >> 48) & 0xff) + 256 * ((v >> 56) & 0xff))))))))
                by (bit_vector);
            assert((v & 0xff) < 256 && ((v >> 8) & 0xff) < 256 && ((v >> 16) & 0xff) < 256 && ((v
                >> 24) & 0xff) < 256 && ((v >> 32) & 0xff) < 256 && ((v >> 40) & 0xff) < 256 && ((
            v >> 48) & 0xff) < 256 && ((v >> 56) & 0xff) < 256) by (bit_vector);
        }
        match en {
            Endianness::LittleEndian => {
                buf[off] = b0;
                buf[off + 1] = b1;
                buf[off + 2] = b2;
                buf[off + 3] = b3;
                buf[off + 4] = b4;
                buf[off + 5] = b5;
                buf[off + 6] = b6;
                buf[off + 7] = b7;
            },
            Endianness::BigEndian => {
                buf[off] = b7;
                buf[off + 1] = b6;
                buf[off + 2] = b5;
                buf[off + 3] = b4;
                buf[off + 4] = b3;
                buf[off + 5] = b2;
                buf[off + 6] = b1;
                buf[off + 7] = b0;
            },
        }
    }
    proof {
        crate::cursor::lemma_uint_small(buf@, off as int);
    }
}

/// Add two sample values, wrapping at `size` bytes.
fn wrapping_add_width(a: u64, b: u64, size: usize) -> (r: u64)
    requires
        size == 1 || size == 2 || size == 4 || size == 8,
        a < pow2((8 * size) as nat),
        b < pow2((8 * size) as nat),
    ensures
        r == (a + b) % (pow2((8 * size) as nat) as int),
{
    proof {
        vstd::arithmetic::power2::lemma2_to64();
        vstd::arithmetic::power2::lemma2_to64_rest();
    }
    let sum: u128 = a as u128 + b as u128;
    let modulus: u128 = if size == 1 {
        256
    } else if size == 2 {
        65536
    } else if size == 4 {
        4294967296
    } else {
        18446744073709551616
    };
    (sum % modulus) as u64
}

/// Re-encode every sample of a buffer from one byte order into another,
/// in place. Each sample keeps its value; only its byte order changes.
#[verifier::loop_isolation(false)]
fn reencode_samples(buf: &mut Vec<u8>, size: usize, from_en: Endianness, to_en: Endianness)
    requires
        size == 1 || size == 2 || size == 4 || size == 8,
        old(buf)@.len() as int % (size as int) == 0,
    ensures
        final (buf)@.len() == old(buf)@.len(),
        forall|i: int|
            0 <= i < old(buf)@.len() as int / (size as int) ==> #[trigger] sample_at(
                final (buf)@,
                i,
                size as int,
                to_en,
            ) == sample_at(old(buf)@, i, size as int, from_en),
{
    let ghost orig = buf@;
    let n = buf.len();
    let total = n / size;
    proof {
        vstd::arithmetic::div_mod::lemma_fundamental_div_mod(n as int, size as int);
        assert(total * size == n) by (nonlinear_arith)
            requires
                n as int == size as int * (n as int / size as int) + n as int % size as int && n
                    as int % size as int == 0 && total == n as int / size as int,
        ;
    }
    let mut idx: usize = 0;
    while idx < total
        invariant
            idx <= total,
            total * size == n,
            buf@.len() == n,
            forall|k: int| idx * size <= k < n ==> buf@[k] == orig[k],
            forall|i: int|
                0 <= i < idx ==> #[trigger] sample_at(buf@, i, size as int, to_en) == sample_at(
                    orig,
                    i,
                    size as int,
                    from_en,
                ),
        decreases total - idx,
    {
        proof {
            assert((idx + 1) * size == idx * size + size) by (nonlinear_arith);
            assert((idx + 1) * size <= total * size) by (nonlinear_arith)
                requires
                    idx + 1 <= total && size > 0,
            ;
        }
        let ghost pre_buf = buf@;
        proof {
            lemma_sample_eq(pre_buf, orig, idx as int, size as int, from_en);
            lemma_uint_at_bound_local(buf@, idx as int * size, size as int, from_en);
        }
        let v = load_sample(buf, idx, size, from_en);
        store_sample(buf, idx, size, to_en, v);
        idx = idx + 1;
        proof {
            assert forall|i: int| 0 <= i < idx implies #[trigger] sample_at(
                buf@,
                i,
                size as int,
                to_en,
            ) == sample_at(orig, i, size as int, from_en) by {
                if i < idx - 1 {
                    assert(0 <= i * size && i * size + size <= (idx - 1) * size)
                        by (nonlinear_arith)
                        requires
                            0 <= i < idx - 1 && size > 0,
                    ;
                    lemma_sample_eq(buf@, pre_buf, i, size as int, to_en);
                }
            }
            assert forall|k: int| idx * size <= k < n implies buf@[k] == orig[k] by {
                assert(idx * size >= (idx - 1) * size + size);
            }
        }
    }
}


/// Whether undoing horizontal differencing succeeds on a buffer of `len`
/// bytes: a supported bit depth, at least one sample per pixel, a tile
/// column inside the image, a row of samples that fits a machine word,
/// and a buffer of whole rows.
pub open spec fn sp_hdiff_ok(info: PredictorInfo, x: int, len: int) -> bool {
    let size = (info.bits_per_sample / 8) as int;
    let row_samples = if info.planar_configuration is Chunky {
        sp_output_width(info, x) * info.samples_per_pixel
    } else {
        sp_output_width(info, x)
    };
    &&& (info.bits_per_sample == 8 || info.bits_per_sample == 16 || info.bits_per_sample == 32
        || info.bits_per_sample == 64)
    &&& info.samples_per_pixel >= 1
    &&& info.chunk_width > 0
    &&& x * info.chunk_width < info.image_width
    &&& row_samples <= usize::MAX
    &&& len % (row_samples * size) == 0
}

/// Whether undoing the floating point predictor succeeds on a buffer of
/// `len` bytes: a supported bit depth, at least one sample per pixel, a
/// tile column inside the image, a row of samples that fits a machine
/// word, and a buffer of whole rows.
pub open spec fn sp_float_ok(info: PredictorInfo, x: int, len: int) -> bool {
    let size = (info.bits_per_sample / 8) as int;
    let cols = if info.planar_configuration is Chunky {
        sp_output_width(info, x) * info.samples_per_pixel
    } else {
        sp_output_width(info, x)
    };
    &&& (info.bits_per_sample == 16 || info.bits_per_sample == 32 || info.bits_per_sample == 64)
    &&& info.samples_per_pixel >= 1
    &&& info.chunk_width > 0
    &&& x * info.chunk_width < info.image_width
    &&& cols <= usize::MAX as int / 8
    &&& len % (cols * size) == 0
}


/// Whether `out` is `inp` with horizontal differencing undone, the
/// samples handed back in the byte order `host`: within every row, each
/// sample past the first pixel is the sum of its stored difference and
/// the sample one pixel to its left in the same channel, wrapping at the
/// sample's bit width.
pub open spec fn sp_hdiff_undone(
    info: PredictorInfo,
    x: int,
    host: Endianness,
    inp: Seq<u8>,
    out: Seq<u8>,
) -> bool {
    let size = (info.bits_per_sample / 8) as int;
    let stride = if info.planar_configuration is Chunky {
        info.samples_per_pixel as int
    } else {
        1int
    };
    let row_samples = if info.planar_configuration is Chunky {
        sp_output_width(info, x) * info.samples_per_pixel
    } else {
        sp_output_width(info, x)
    };
    &&& (info.bits_per_sample == 8 || info.bits_per_sample == 16 || info.bits_per_sample == 32
        || info.bits_per_sample == 64)
    &&& info.samples_per_pixel >= 1
    &&& out.len() == inp.len()
    &&& inp.len() as int % (row_samples * size) == 0
    &&& (forall|i: int|
        0 <= i < inp.len() as int / size ==> #[trigger] sample_at(out, i, size, host) == if i
            % row_samples < stride {
            sample_at(inp, i, size, info.endianness)
        } else {
            (sample_at(out, i - stride, size, host) + sample_at(inp, i, size, info.endianness)) % (
            pow2((8 * size) as nat) as int)
        })
}

/// Undo horizontal differencing on one decoded tile and hand the samples
/// back in the byte order `host`: within every row, each sample past the
/// first pixel is the sum of its stored difference and the sample one
/// pixel to its left in the same channel, wrapping at the sample's bit
/// width. A planar tile carries one band, so its pixels stride by one
/// sample; a chunky tile strides by the samples per pixel.
#[verifier::rlimit(30)]
pub fn unpredict_hdiff(
    buf: Vec<u8>,
    info: &PredictorInfo,
    x: usize,
    host: Endianness,
) -> (r: Result<Vec<u8>, TiffError>)
    ensures
        (r matches Ok(out) ==> {
            let size = (info.bits_per_sample / 8) as int;
            let stride = if info.planar_configuration is Chunky {
                info.samples_per_pixel as int
            } else {
                1int
            };
            let row_samples = if info.planar_configuration is Chunky {
                sp_output_width(*info, x as int) * info.samples_per_pixel
            } else {
                sp_output_width(*info, x as int)
            };
            &&& (info.bits_per_sample == 8 || info.bits_per_sample == 16
                || info.bits_per_sample == 32 || info.bits_per_sample == 64)
            &&& info.samples_per_pixel >= 1
            &&& out@.len() == buf@.len()
            &&& buf@.len() as int % (row_samples * size) == 0
            &&& (forall|i: int|
                0 <= i < buf@.len() as int / size ==> #[trigger] sample_at(
                    out@,
                    i,
                    size,
                    host,
                ) == if i % row_samples < stride {
                    sample_at(buf@, i, size, info.endianness)
                } else {
                    (sample_at(out@, i - stride, size, host) + sample_at(
                        buf@,
                        i,
                        size,
                        info.endianness,
                    )) % (pow2((8 * size) as nat) as int)
                })
        }),
        (r matches Ok(out) ==> sp_hdiff_undone(*info, x as int, host, buf@, out@)),
        (r is Ok <==> sp_hdiff_ok(*info, x as int, buf@.len() as int)),
{
    let size: usize = if info.bits_per_sample == 8 {
        1
    } else if info.bits_per_sample == 16 {
        2
    } else if info.bits_per_sample == 32 {
        4
    } else if info.bits_per_sample == 64 {
        8
    } else {
        return Err(TiffError::Format(0));
    };
    if info.samples_per_pixel == 0 {
        return Err(TiffError::Format(0));
    }
    let out_w = match info.output_width(x) {
        Ok(w) => w,
        Err(e) => {
            return Err(e);
        },
    };
    proof {
        assert(out_w * info.samples_per_pixel <= u32::MAX as int * u16::MAX as int)
            by (nonlinear_arith)
            requires
                0 <= out_w <= u32::MAX && 0 <= info.samples_per_pixel <= u16::MAX,
        ;
    }
    let (row_samples64, stride): (u64, usize) = match info.planar_configuration {
        PlanarConfiguration::Chunky => (
            out_w as u64 * info.samples_per_pixel as u64,
            info.samples_per_pixel as usize,
        ),
        PlanarConfiguration::Planar => (out_w as u64, 1),
    };
    proof {
        assert(row_samples64 as int == if info.planar_configuration is Chunky {
            sp_output_width(*info, x as int) * info.samples_per_pixel
        } else {
            sp_output_width(*info, x as int)
        });
        assert(size as int == (info.bits_per_sample / 8) as int);
    }
    if row_samples64 > usize::MAX as u64 {
        return Err(TiffError::Format(0));
    }
    let row_samples = row_samples64 as usize;
    proof {
        assert(out_w >= 1);
        assert(row_samples >= 1) by (nonlinear_arith)
            requires
                out_w >= 1 && info.samples_per_pixel >= 1 && (row_samples == out_w as int
                    * info.samples_per_pixel as int || row_samples == out_w as int),
        ;
        assert(row_samples * size >= 1) by (nonlinear_arith)
            requires
                row_samples >= 1 && size >= 1,
        ;
    }
    let mut work = buf;
    let ghost input = work@;
    match unpredict_rows(&mut work, row_samples, stride, size, info.endianness) {
        Ok(()) => {},
        Err(e) => {
            return Err(e);
        },
    }
    let ghost mid = work@;
    proof {
        assert(input.len() as int % ((row_samples * size) as int) == 0);
        let rb: int = row_samples as int * size as int;
        let q: int = input.len() as int / rb;
        vstd::arithmetic::div_mod::lemma_fundamental_div_mod(input.len() as int, rb);
        assert(input.len() as int == (q * row_samples as int) * size as int)
            by (nonlinear_arith)
            requires
                input.len() as int == rb * q && rb == row_samples as int * size as int,
        ;
        vstd::arithmetic::div_mod::lemma_mod_multiples_basic(
            q * row_samples as int,
            size as int,
        );
    }
    reencode_samples(&mut work, size, info.endianness, host);
    proof {
        assert(size as int == (info.bits_per_sample / 8) as int);
        assert(row_samples as int == if info.planar_configuration is Chunky {
            sp_output_width(*info, x as int) * info.samples_per_pixel
        } else {
            sp_output_width(*info, x as int)
        });
        let size_i = size as int;
        let rs_i = row_samples as int;
        let stride_i = stride as int;
        let total = input.len() as int / size_i;
        assert forall|i: int| 0 <= i < total implies #[trigger] sample_at(
            work@,
            i,
            size_i,
            host,
        ) == (if i % rs_i < stride_i {
            sample_at(input, i, size_i, info.endianness)
        } else {
            (sample_at(work@, i - stride_i, size_i, host) + sample_at(
                input,
                i,
                size_i,
                info.endianness,
            )) % (pow2((8 * size_i) as nat) as int)
        }) by {
            assert(sample_at(work@, i, size_i, host) == sample_at(mid, i, size_i,
                info.endianness));
            if i % rs_i >= stride_i {
                assert(stride_i <= i) by (nonlinear_arith)
                    requires
                        i % rs_i >= stride_i && rs_i > 0 && i >= 0,
                ;
                assert(sample_at(work@, i - stride_i, size_i, host) == sample_at(
                    mid,
                    i - stride_i,
                    size_i,
                    info.endianness,
                ));
            }
        }
    }
    Ok(work)
}

/// The physical width in pixels of the tile in column `x`.
pub open spec fn sp_output_width(info: PredictorInfo, x: int) -> int {
    if (x + 1) * info.chunk_width <= info.image_width {
        info.chunk_width as int
    } else {
        info.image_width - x * info.chunk_width
    }
}

/// The physical height in rows of the tile in row `y`.
pub open spec fn sp_output_height(info: PredictorInfo, y: int) -> int {
    if (y + 1) * info.chunk_height <= info.image_height {
        info.chunk_height as int
    } else {
        info.image_height - y * info.chunk_height
    }
}

/// The byte-interleave that undoes the floating point predictor's
/// shuffle: within every row of `cols` samples of `size` bytes, the
/// stored layout holds all first bytes, then all second bytes, and so on;
/// the result lays each sample's bytes back out together, most
/// significant first.
pub open spec fn fp_interleave(s: Seq<u8>, cols: int, size: int) -> Seq<u8> {
    Seq::new(
        s.len(),
        |k: int|
            {
                let rb = cols * size;
                let row = k / rb;
                let j = k % rb;
                let c = j / size;
                let b = j % size;
                s[row * rb + b * cols + c]
            },
    )
}


/// Whether `out` is `inp` with the floating point predictor undone, the
/// samples handed back in the byte order `host`: the row bytes are
/// un-differenced, then each sample's bytes are gathered back from the
/// byte planes, most significant plane first.
pub open spec fn sp_float_undone(
    info: PredictorInfo,
    x: int,
    host: Endianness,
    inp: Seq<u8>,
    out: Seq<u8>,
) -> bool {
    let size = (info.bits_per_sample / 8) as int;
    let cols = if info.planar_configuration is Chunky {
        sp_output_width(info, x) * info.samples_per_pixel
    } else {
        sp_output_width(info, x)
    };
    let rb = cols * size;
    &&& (info.bits_per_sample == 16 || info.bits_per_sample == 32 || info.bits_per_sample == 64)
    &&& info.samples_per_pixel >= 1
    &&& out.len() == inp.len()
    &&& inp.len() as int % rb == 0
    &&& exists|acc: Seq<u8>|
        #![trigger acc.len()]
        {
            &&& acc.len() == inp.len()
            &&& (forall|i: int|
                0 <= i < acc.len() ==> #[trigger] sample_at(acc, i, 1, info.endianness) == if i
                    % rb < 1 {
                    sample_at(inp, i, 1, info.endianness)
                } else {
                    (sample_at(acc, i - 1, 1, info.endianness) + sample_at(
                        inp,
                        i,
                        1,
                        info.endianness,
                    )) % 256
                })
            &&& (forall|i: int|
                0 <= i < out.len() as int / size ==> #[trigger] sample_at(out, i, size, host)
                    == sample_at(fp_interleave(acc, cols, size), i, size, Endianness::BigEndian))
        }
}

/// Undo the floating point predictor on one decoded tile and hand the
/// samples back in the byte order `host`: within every row, first undo
/// the byte-level differencing, then gather each sample's bytes back
/// together from the byte planes, most significant plane first.
#[verifier::rlimit(60)]
pub fn unpredict_float(
    buf: Vec<u8>,
    info: &PredictorInfo,
    x: usize,
    host: Endianness,
) -> (r: Result<Vec<u8>, TiffError>)
    ensures
        (r matches Ok(out) ==> {
            let size = (info.bits_per_sample / 8) as int;
            let cols = if info.planar_configuration is Chunky {
                sp_output_width(*info, x as int) * info.samples_per_pixel
            } else {
                sp_output_width(*info, x as int)
            };
            let rb = cols * size;
            &&& (info.bits_per_sample == 16 || info.bits_per_sample == 32
                || info.bits_per_sample == 64)
            &&& info.samples_per_pixel >= 1
            &&& out@.len() == buf@.len()
            &&& buf@.len() as int % rb == 0
            &&& exists|acc: Seq<u8>|
                #![trigger acc.len()]
                {
                    &&& acc.len() == buf@.len()
                    &&& (forall|i: int|
                        0 <= i < acc.len() ==> #[trigger] sample_at(acc, i, 1, info.endianness)
                            == if i % rb < 1 {
                            sample_at(buf@, i, 1, info.endianness)
                        } else {
                            (sample_at(acc, i - 1, 1, info.endianness) + sample_at(
                                buf@,
                                i,
                                1,
                                info.endianness,
                            )) % 256
                        })
                    &&& (forall|i: int|
                        0 <= i < out@.len() as int / size ==> #[trigger] sample_at(
                            out@,
                            i,
                            size,
                            host,
                        ) == sample_at(fp_interleave(acc, cols, size), i, size,
                        Endianness::BigEndian))
                }
        }),
        (r matches Ok(out) ==> sp_float_undone(*info, x as int, host, buf@, out@)),
        (r is Ok <==> sp_float_ok(*info, x as int, buf@.len() as int)),
{
    let size: usize = if info.bits_per_sample == 16 {
        2
    } else if info.bits_per_sample == 32 {
        4
    } else if info.bits_per_sample == 64 {
        8
    } else {
        return Err(TiffError::Format(0));
    };
    if info.samples_per_pixel == 0 {
        return Err(TiffError::Format(0));
    }
    let out_w = match info.output_width(x) {
        Ok(w) => w,
        Err(e) => {
            return Err(e);
        },
    };
    proof {
        assert(out_w * info.samples_per_pixel <= u32::MAX as int * u16::MAX as int)
            by (nonlinear_arith)
            requires
                0 <= out_w <= u32::MAX && 0 <= info.samples_per_pixel <= u16::MAX,
        ;
    }
    let cols64: u64 = match info.planar_configuration {
        PlanarConfiguration::Chunky => out_w as u64 * info.samples_per_pixel as u64,
        PlanarConfiguration::Planar => out_w as u64,
    };
    proof {
        assert(cols64 as int == if info.planar_configuration is Chunky {
            sp_output_width(*info, x as int) * info.samples_per_pixel
        } else {
            sp_output_width(*info, x as int)
        });
        assert(size as int == (info.bits_per_sample / 8) as int);
    }
    if cols64 > (usize::MAX / 8) as u64 {
        return Err(TiffError::Format(0));
    }
    let cols = cols64 as usize;
    proof {
        assert(cols * size <= usize::MAX as int) by (nonlinear_arith)
            requires
                0 <= cols <= usize::MAX as int / 8 && 0 <= size <= 8,
        ;
    }
    let rb = cols * size;
    proof {
        assert(out_w >= 1);
        assert(cols >= 1) by (nonlinear_arith)
            requires
                out_w >= 1 && info.samples_per_pixel >= 1 && (cols == out_w as int
                    * info.samples_per_pixel as int || cols == out_w as int),
        ;
        assert(rb >= 1) by (nonlinear_arith)
            requires
                rb == cols as int * size as int && cols >= 1 && size >= 1,
        ;
    }
    let mut work = buf;
    let ghost input = work@;
    match unpredict_rows(&mut work, rb, 1, 1, info.endianness) {
        Ok(()) => {},
        Err(e) => {
            return Err(e);
        },
    }
    let ghost acc = work@;
    let n = work.len();
    let mut out: Vec<u8> = Vec::new();
    let mut k: usize = 0;
    while k < n
        invariant
            k <= n,
            n == work@.len(),
            work@ == acc,
            rb == cols * size,
            rb > 0,
            n as int % (rb as int) == 0,
            out@.len() == k,
            forall|m: int|
                0 <= m < k ==> #[trigger] out@[m] == fp_interleave(acc, cols as int,
                size as int)[m],
        decreases n - k,
    {
        let row = k / rb;
        let j = k % rb;
        let c = j / size;
        let b = j % size;
        proof {
            assert(row * rb + b * cols + c < n && row * rb + b * cols + c >= 0)
                by (nonlinear_arith)
                requires
                    rb == cols * size && size > 0 && cols > 0 && k < n && n as int % (rb as int)
                        == 0 && row == k as int / (rb as int) && j == k as int % (rb as int) && c
                        == j as int / (size as int) && b == j as int % (size as int),
            ;
            assert(row * rb <= u64::MAX as int * u64::MAX as int && b * cols <= u64::MAX as int
                * u64::MAX as int) by (nonlinear_arith)
                requires
                    0 <= row <= u64::MAX && 0 <= rb <= u64::MAX && 0 <= b <= u64::MAX && 0 <= cols
                        <= u64::MAX,
            ;
        }
        let src = row * rb + b * cols + c;
        out.push(work[src]);
        k = k + 1;
    }
    proof {
        assert(out@ =~= fp_interleave(acc, cols as int, size as int));
    }
    let mut out = out;
    proof {
        let rbi: int = cols as int * size as int;
        let q: int = out@.len() as int / rbi;
        vstd::arithmetic::div_mod::lemma_fundamental_div_mod(out@.len() as int, rbi);
        assert(out@.len() as int == (q * cols as int) * size as int) by (nonlinear_arith)
            requires
                out@.len() as int == rbi * q && rbi == cols as int * size as int,
        ;
        vstd::arithmetic::div_mod::lemma_mod_multiples_basic(q * cols as int, size as int);
    }
    reencode_samples(&mut out, size, Endianness::BigEndian, host);
    proof {
        vstd::arithmetic::power2::lemma2_to64();
        assert(input.len() as int % ((cols * size) as int) == 0);
        let size_i = size as int;
        let cols_i = if info.planar_configuration is Chunky {
            sp_output_width(*info, x as int) * info.samples_per_pixel as int
        } else {
            sp_output_width(*info, x as int)
        };
        assert(cols as int == cols_i);
        assert(acc.len() == input.len());
        assert(fp_interleave(acc, cols as int, size as int).len() == input.len());
    }
    Ok(out)
}

} // verus!
