//! Decoders for the built-in TIFF compression methods, and the registry
//! that maps compression tags to them.

use vstd::prelude::*;

use crate::error::TiffError;
use crate::tags::{spec_compression_code, spec_photometric_code, CompressionMethod, PhotometricInterpretation};

verus! {

/// What flate2's zlib decoder returns for a compressed stream: the
/// inflated bytes, or nothing when the stream is malformed. The result
/// depends on the input bytes alone.
pub uninterp spec fn inflate(s: Seq<u8>) -> Option<Seq<u8>>;

/// What weezl's TIFF-variant LZW decoder (most significant bit first,
/// 8-bit symbols with the early size switch) returns: the expanded bytes,
/// or nothing when the stream is malformed. The result depends on the
/// input bytes alone.
pub uninterp spec fn lzw_expand(s: Seq<u8>) -> Option<Seq<u8>>;

/// What the baseline JPEG decoder returns for a JPEG stream under the
/// given color transform code: the decoded sample bytes, or nothing when
/// the stream is malformed. The decoder is built in its
/// platform-independent mode, so the result depends on the arguments
/// alone, on every machine.
pub uninterp spec fn jpeg_decoded(s: Seq<u8>, transform: u16) -> Option<Seq<u8>>;

/// Relies on flate2's read::ZlibDecoder and read_to_end: inflating a zlib
/// stream either yields the decompressed bytes or reports corrupt input,
/// as a function of the input bytes alone.
#[verifier::external_body]
fn inflate_bytes(data: &Vec<u8>) -> (r: Result<Vec<u8>, TiffError>)
    ensures
        (match r {
            Ok(v) => inflate(data@) == Some(v@),
            Err(e) => inflate(data@) is None && e == TiffError::CorruptCodec,
        }),
{
    let mut decoder = flate2::read::ZlibDecoder::new(data.as_slice());
    let mut out: Vec<u8> = Vec::new();
    match std::io::Read::read_to_end(&mut decoder, &mut out) {
        Ok(_) => Ok(out),
        Err(_) => Err(TiffError::CorruptCodec),
    }
}

/// Relies on weezl's decode::Decoder::with_tiff_size_switch and decode:
/// expanding a TIFF LZW stream either yields the expanded bytes or
/// reports corrupt input, as a function of the input bytes alone.
#[verifier::external_body]
fn lzw_expand_bytes(data: &Vec<u8>) -> (r: Result<Vec<u8>, TiffError>)
    ensures
        (match r {
            Ok(v) => lzw_expand(data@) == Some(v@),
            Err(e) => lzw_expand(data@) is None && e == TiffError::CorruptCodec,
        }),
{
    let mut decoder = weezl::decode::Decoder::with_tiff_size_switch(weezl::BitOrder::Msb, 8);
    match decoder.decode(data.as_slice()) {
        Ok(v) => Ok(v),
        Err(_) => Err(TiffError::CorruptCodec),
    }
}

/// Relies on jpeg_decoder's Decoder, set_color_transform and decode,
/// with the crate's platform_independent feature enabled so that no
/// machine-specific code path is chosen: decoding a baseline JPEG stream
/// under a fixed color transform either yields the sample bytes or
/// reports corrupt input, as a function of the arguments alone.
/// Transform codes: 0 none, 1 RGB, 2 CMYK, 3 YCbCr.
#[verifier::external_body]
fn jpeg_decode_bytes(data: &Vec<u8>, transform: u16) -> (r: Result<Vec<u8>, TiffError>)
    ensures
        (match r {
            Ok(v) => jpeg_decoded(data@, transform) == Some(v@),
            Err(e) => jpeg_decoded(data@, transform) is None && e == TiffError::CorruptCodec,
        }),
{
    let mut decoder = jpeg_decoder::Decoder::new(data.as_slice());
    decoder.set_color_transform(
        match transform {
            1 => jpeg_decoder::ColorTransform::RGB,
            2 => jpeg_decoder::ColorTransform::CMYK,
            3 => jpeg_decoder::ColorTransform::YCbCr,
            _ => jpeg_decoder::ColorTransform::None,
        },
    );
    match decoder.decode() {
        Ok(v) => Ok(v),
        Err(_) => Err(TiffError::CorruptCodec),
    }
}

/// The color transform code the JPEG decoder is told to use for a
/// photometric interpretation: 0 none, 1 RGB, 2 CMYK, 3 YCbCr; no code
/// for the interpretations JPEG-in-TIFF leaves undefined.
pub open spec fn sp_jpeg_transform(p: PhotometricInterpretation) -> Option<u16> {
    match p {
        PhotometricInterpretation::RGB => Some(1u16),
        PhotometricInterpretation::WhiteIsZero => Some(0u16),
        PhotometricInterpretation::BlackIsZero => Some(0u16),
        PhotometricInterpretation::TransparencyMask => Some(0u16),
        PhotometricInterpretation::CMYK => Some(2u16),
        PhotometricInterpretation::YCbCr => Some(3u16),
        _ => None,
    }
}

/// The JPEG stream handed to the decoder when a shared tables blob is
/// present: the tables without their trailing end-of-image marker,
/// followed by the tile without its leading start-of-image marker.
pub open spec fn sp_jpeg_stitched(tables: Seq<u8>, tile: Seq<u8>) -> Seq<u8> {
    tables.take(tables.len() - 2) + tile.skip(2)
}

/// Decode one TIFF-embedded baseline JPEG tile: pick the color transform
/// from the photometric interpretation, stitch the shared tables blob in
/// front of the tile if one is present, and run the JPEG decoder.
pub fn decode_modern_jpeg(
    buf: Vec<u8>,
    photometric: PhotometricInterpretation,
    jpeg_tables: Option<&Vec<u8>>,
) -> (r: Result<Vec<u8>, TiffError>)
    ensures
        sp_jpeg_transform(photometric) is None ==> r == Err::<Vec<u8>, TiffError>(
            TiffError::UnsupportedInterpretation(spec_photometric_code(photometric)),
        ),
        (r matches Ok(v) ==> sp_jpeg_transform(photometric) matches Some(t) && {
            match jpeg_tables {
                Some(tables) => tables@.len() >= 2 && buf@.len() >= 2 && jpeg_decoded(
                    sp_jpeg_stitched(tables@, buf@),
                    t,
                ) == Some(v@),
                None => jpeg_decoded(buf@, t) == Some(v@),
            }
        }),
        ({
            &&& sp_jpeg_transform(photometric) is Some
            &&& jpeg_tables matches Some(tables)
            &&& (tables@.len() < 2 || buf@.len() < 2)
        }) ==> r == Err::<Vec<u8>, TiffError>(TiffError::CorruptCodec),
        (sp_jpeg_transform(photometric) is Some && jpeg_tables is None) ==> {
            &&& (r is Ok <==> jpeg_decoded(buf@, sp_jpeg_transform(photometric).unwrap())
                is Some)
            &&& (r is Err ==> r == Err::<Vec<u8>, TiffError>(TiffError::CorruptCodec))
        },
        ({
            &&& sp_jpeg_transform(photometric) is Some
            &&& jpeg_tables matches Some(tables)
            &&& tables@.len() >= 2
            &&& buf@.len() >= 2
        }) ==> {
            &&& (r is Ok <==> jpeg_decoded(
                sp_jpeg_stitched(jpeg_tables.unwrap()@, buf@),
                sp_jpeg_transform(photometric).unwrap(),
            ) is Some)
            &&& (r is Err ==> r == Err::<Vec<u8>, TiffError>(TiffError::CorruptCodec))
        },
{
    let transform: u16 = match photometric {
        PhotometricInterpretation::RGB => 1,
        PhotometricInterpretation::WhiteIsZero => 0,
        PhotometricInterpretation::BlackIsZero => 0,
        PhotometricInterpretation::TransparencyMask => 0,
        PhotometricInterpretation::CMYK => 2,
        PhotometricInterpretation::YCbCr => 3,
        other => {
            return Err(TiffError::UnsupportedInterpretation(other.to_u16()));
        },
    };
    match jpeg_tables {
        Some(tables) => {
            if tables.len() < 2 || buf.len() < 2 {
                return Err(TiffError::CorruptCodec);
            }
            let mut stitched: Vec<u8> = Vec::new();
            let tlen = tables.len() - 2;
            let mut i: usize = 0;
            while i < tlen
                invariant
                    i <= tlen,
                    tlen == tables@.len() - 2,
                    stitched@ == tables@.subrange(0, i as int),
                decreases tlen - i,
            {
                stitched.push(tables[i]);
                i = i + 1;
            }
            let mut j: usize = 2;
            while j < buf.len()
                invariant
                    2 <= j <= buf@.len(),
                    stitched@ == tables@.subrange(0, tlen as int) + buf@.subrange(2, j as int),
                    tlen == tables@.len() - 2,
                decreases buf@.len() - j,
            {
                stitched.push(buf[j]);
                j = j + 1;
            }
            proof {
                assert(stitched@ =~= sp_jpeg_stitched(tables@, buf@));
            }
            jpeg_decode_bytes(&stitched, transform)
        },
        None => jpeg_decode_bytes(&buf, transform),
    }
}

/// The decoder for uncompressed data: it hands the bytes back unchanged.
#[derive(Debug, Clone, Copy, PartialEq, Eq, Structural)]
pub struct UncompressedDecoder;

impl UncompressedDecoder {
    /// Decode an uncompressed tile: the data is already the sample bytes.
    pub fn decode_tile(
        &self,
        buffer: Vec<u8>,
        _photometric: PhotometricInterpretation,
        _jpeg_tables: Option<&Vec<u8>>,
    ) -> (r: Result<Vec<u8>, TiffError>)
        ensures
            r matches Ok(v) && v@ == buffer@,
    {
        Ok(buffer)
    }
}

/// The decoder for zlib-wrapped Deflate data.
#[derive(Debug, Clone, Copy, PartialEq, Eq, Structural)]
pub struct DeflateDecoder;

impl DeflateDecoder {
    /// Inflate one Deflate-compressed tile.
    pub fn decode_tile(
        &self,
        buffer: Vec<u8>,
        _photometric: PhotometricInterpretation,
        _jpeg_tables: Option<&Vec<u8>>,
    ) -> (r: Result<Vec<u8>, TiffError>)
        ensures
            (match r {
                Ok(v) => inflate(buffer@) == Some(v@),
                Err(e) => inflate(buffer@) is None && e == TiffError::CorruptCodec,
            }),
    {
        inflate_bytes(&buffer)
    }
}

/// The decoder for the TIFF variant of LZW.
#[derive(Debug, Clone, Copy, PartialEq, Eq, Structural)]
pub struct LZWDecoder;

impl LZWDecoder {
    /// Expand one LZW-compressed tile.
    pub fn decode_tile(
        &self,
        buffer: Vec<u8>,
        _photometric: PhotometricInterpretation,
        _jpeg_tables: Option<&Vec<u8>>,
    ) -> (r: Result<Vec<u8>, TiffError>)
        ensures
            (match r {
                Ok(v) => lzw_expand(buffer@) == Some(v@),
                Err(e) => lzw_expand(buffer@) is None && e == TiffError::CorruptCodec,
            }),
    {
        lzw_expand_bytes(&buffer)
    }
}

/// The decoder for TIFF-embedded baseline JPEG.
#[derive(Debug, Clone, Copy, PartialEq, Eq, Structural)]
pub struct JPEGDecoder;

impl JPEGDecoder {
    /// Decode one JPEG-compressed tile, stitching in the shared tables
    /// blob when the file carries one.
    pub fn decode_tile(
        &self,
        buffer: Vec<u8>,
        photometric: PhotometricInterpretation,
        jpeg_tables: Option<&Vec<u8>>,
    ) -> (r: Result<Vec<u8>, TiffError>)
        ensures
            ({
                let tb = match jpeg_tables {
                    Some(t) => Some(t@),
                    None => None::<Seq<u8>>,
                };
                let c = Codec::Jpeg(JPEGDecoder);
                &&& (r is Ok <==> sp_codec_output(c, buffer@, photometric, tb) is Some)
                &&& (r matches Ok(v) ==> codec_decodes(c, buffer@, photometric, tb, v@))
                &&& (r matches Err(e) ==> e == sp_codec_err(c, buffer@, photometric, tb))
            }),
    {
        decode_modern_jpeg(buffer, photometric, jpeg_tables)
    }
}

/// One of the built-in codecs.
#[derive(Debug, Clone, Copy, PartialEq, Eq, Structural)]
pub enum Codec {
    /// Uncompressed data.
    Uncompressed(UncompressedDecoder),
    /// Zlib-wrapped Deflate.
    Deflate(DeflateDecoder),
    /// The TIFF variant of LZW.
    Lzw(LZWDecoder),
    /// TIFF-embedded baseline JPEG.
    Jpeg(JPEGDecoder),
}

impl Codec {
    /// Decode one tile with this codec.
    pub fn decode_tile(
        &self,
        buffer: Vec<u8>,
        photometric: PhotometricInterpretation,
        jpeg_tables: Option<&Vec<u8>>,
    ) -> (r: Result<Vec<u8>, TiffError>)
        ensures
            ({
                let tb = match jpeg_tables {
                    Some(t) => Some(t@),
                    None => None::<Seq<u8>>,
                };
                &&& (r is Ok <==> sp_codec_output(*self, buffer@, photometric, tb) is Some)
                &&& (r matches Ok(v) ==> codec_decodes(*self, buffer@, photometric, tb, v@))
                &&& (r matches Err(e) ==> e == sp_codec_err(*self, buffer@, photometric, tb))
            }),
    {
        match self {
            Codec::Uncompressed(d) => d.decode_tile(buffer, photometric, jpeg_tables),
            Codec::Deflate(d) => d.decode_tile(buffer, photometric, jpeg_tables),
            Codec::Lzw(d) => d.decode_tile(buffer, photometric, jpeg_tables),
            Codec::Jpeg(d) => d.decode_tile(buffer, photometric, jpeg_tables),
        }
    }
}

/// What codec `c` decodes `input` to under the given photometric
/// interpretation and shared JPEG tables, or nothing when the input
/// cannot be decoded.
pub open spec fn sp_codec_output(
    c: Codec,
    input: Seq<u8>,
    photometric: PhotometricInterpretation,
    tables: Option<Seq<u8>>,
) -> Option<Seq<u8>> {
    match c {
        Codec::Uncompressed(_) => Some(input),
        Codec::Deflate(_) => inflate(input),
        Codec::Lzw(_) => lzw_expand(input),
        Codec::Jpeg(_) => match sp_jpeg_transform(photometric) {
            None => None,
            Some(t) => match tables {
                Some(tb) => if tb.len() >= 2 && input.len() >= 2 {
                    jpeg_decoded(sp_jpeg_stitched(tb, input), t)
                } else {
                    None
                },
                None => jpeg_decoded(input, t),
            },
        },
    }
}

/// Whether `out` is what codec `c` decodes `input` to, under the given
/// photometric interpretation and shared JPEG tables.
pub open spec fn codec_decodes(
    c: Codec,
    input: Seq<u8>,
    photometric: PhotometricInterpretation,
    tables: Option<Seq<u8>>,
    out: Seq<u8>,
) -> bool {
    sp_codec_output(c, input, photometric, tables) == Some(out)
}

/// The error codec `c` reports when it cannot decode `input`: an
/// undefined color transform for JPEG, otherwise corrupt data.
pub open spec fn sp_codec_err(
    c: Codec,
    input: Seq<u8>,
    photometric: PhotometricInterpretation,
    tables: Option<Seq<u8>>,
) -> TiffError {
    match c {
        Codec::Jpeg(_) => if sp_jpeg_transform(photometric) is None {
            TiffError::UnsupportedInterpretation(spec_photometric_code(photometric))
        } else {
            TiffError::CorruptCodec
        },
        _ => TiffError::CorruptCodec,
    }
}

/// The registered codec for a compression tag, if any: the last
/// registration wins.
pub open spec fn reg_lookup(entries: Seq<(u16, Codec)>, code: u16) -> Option<Codec>
    decreases entries.len(),
{
    if entries.len() == 0 {
        None
    } else if entries.last().0 == code {
        Some(entries.last().1)
    } else {
        reg_lookup(entries.drop_last(), code)
    }
}

/// A registry of codecs keyed by compression tag. Callers may register
/// further codecs, replace a registration, or remove one.
#[derive(Debug)]
pub struct DecoderRegistry {
    entries: Vec<(u16, Codec)>,
}

impl DecoderRegistry {
    /// The registrations, oldest first.
    pub closed spec fn entries_view(&self) -> Seq<(u16, Codec)> {
        self.entries@
    }

    /// A registry with no codecs registered.
    pub fn new() -> (r: DecoderRegistry)
        ensures
            r.entries_view() == Seq::<(u16, Codec)>::empty(),
    {
        DecoderRegistry { entries: Vec::new() }
    }

    /// Register a codec for a compression tag, shadowing any earlier
    /// registration for the same tag.
    pub fn insert(&mut self, code: u16, codec: Codec)
        ensures
            final (self).entries_view() == old(self).entries_view().push((code, codec)),
            reg_lookup(final (self).entries_view(), code) == Some(codec),
    {
        self.entries.push((code, codec));
        proof {
            assert(self.entries@.drop_last() =~= old(self).entries@);
        }
    }

    /// Remove every registration for a compression tag, leaving every
    /// other tag's registration as it was.
    #[verifier::loop_isolation(false)]
    pub fn remove(&mut self, code: u16)
        ensures
            reg_lookup(final (self).entries_view(), code) is None,
            forall|c: u16|
                c != code ==> #[trigger] reg_lookup(final (self).entries_view(), c) == reg_lookup(
                    old(self).entries_view(),
                    c,
                ),
    {
        let ghost orig = self.entries@;
        let mut kept: Vec<(u16, Codec)> = Vec::new();
        let n = self.entries.len();
        proof {
            assert(orig.take(0) =~= Seq::<(u16, Codec)>::empty());
        }
        let mut i: usize = 0;
        while i < n
            invariant
                i <= n,
                n == self.entries@.len(),
                self.entries@ == orig,
                reg_lookup(kept@, code) is None,
                forall|c: u16|
                    c != code ==> #[trigger] reg_lookup(kept@, c) == reg_lookup(
                        orig.take(i as int),
                        c,
                    ),
            decreases n - i,
        {
            let ghost pre = kept@;
            proof {
                assert(orig.take(i + 1).drop_last() =~= orig.take(i as int));
                assert(orig.take(i + 1).last() == orig[i as int]);
            }
            if self.entries[i].0 != code {
                let (c, d) = self.entries[i];
                kept.push((c, d));
                proof {
                    assert(kept@.drop_last() =~= pre);
                }
            }
            proof {
                assert forall|c: u16| c != code implies #[trigger] reg_lookup(kept@, c)
                    == reg_lookup(orig.take(i + 1), c) by {
                    if orig[i as int].0 == code {
                        assert(reg_lookup(orig.take(i + 1), c) == reg_lookup(
                            orig.take(i as int),
                            c,
                        ));
                    } else if orig[i as int].0 == c {
                        assert(reg_lookup(kept@, c) == Some(orig[i as int].1));
                    } else {
                        assert(reg_lookup(kept@, c) == reg_lookup(pre, c));
                        assert(reg_lookup(orig.take(i + 1), c) == reg_lookup(
                            orig.take(i as int),
                            c,
                        ));
                    }
                }
            }
            i = i + 1;
        }
        proof {
            assert(orig.take(n as int) =~= orig);
        }
        self.entries = kept;
    }

    /// The codec registered for a compression tag, if any.
    #[verifier::loop_isolation(false)]
    pub fn get(&self, code: u16) -> (r: Option<&Codec>)
        ensures
            (r matches Some(c) ==> reg_lookup(self.entries_view(), code) == Some(*c)),
            r is None <==> reg_lookup(self.entries_view(), code) is None,
    {
        let n = self.entries.len();
        proof {
            assert(self.entries@.take(n as int) =~= self.entries@);
        }
        let mut j: usize = n;
        while j > 0
            invariant
                j <= n,
                reg_lookup(self.entries@, code) == reg_lookup(self.entries@.take(j as int), code),
            decreases j,
        {
            j = j - 1;
            proof {
                assert(self.entries@.take(j + 1).drop_last() =~= self.entries@.take(j as int));
                assert(self.entries@.take(j + 1).last() == self.entries@[j as int]);
            }
            if self.entries[j].0 == code {
                return Some(&self.entries[j].1);
            }
        }
        proof {
            assert(self.entries@.take(0) =~= Seq::<(u16, Codec)>::empty());
        }
        None
    }
}

impl Default for DecoderRegistry {
    /// The registry with the built-in codecs: uncompressed data, Deflate
    /// under both its tags, LZW, and TIFF-embedded baseline JPEG.
    fn default() -> (r: DecoderRegistry)
        ensures
            reg_lookup(r.entries_view(), spec_compression_code(
                CompressionMethod::Uncompressed,
            )) == Some(Codec::Uncompressed(UncompressedDecoder)),
            reg_lookup(r.entries_view(), spec_compression_code(CompressionMethod::Deflate))
                == Some(Codec::Deflate(DeflateDecoder)),
            reg_lookup(r.entries_view(), spec_compression_code(CompressionMethod::OldDeflate))
                == Some(Codec::Deflate(DeflateDecoder)),
            reg_lookup(r.entries_view(), spec_compression_code(CompressionMethod::LZW)) == Some(
                Codec::Lzw(LZWDecoder),
            ),
            reg_lookup(r.entries_view(), spec_compression_code(CompressionMethod::ModernJPEG))
                == Some(Codec::Jpeg(JPEGDecoder)),
    {
        let mut r = DecoderRegistry::new();
        r.insert(
            CompressionMethod::Uncompressed.to_u16(),
            Codec::Uncompressed(UncompressedDecoder),
        );
        let ghost s1 = r.entries_view();
        r.insert(CompressionMethod::Deflate.to_u16(), Codec::Deflate(DeflateDecoder));
        let ghost s2 = r.entries_view();
        r.insert(CompressionMethod::OldDeflate.to_u16(), Codec::Deflate(DeflateDecoder));
        let ghost s3 = r.entries_view();
        r.insert(CompressionMethod::LZW.to_u16(), Codec::Lzw(LZWDecoder));
        let ghost s4 = r.entries_view();
        r.insert(CompressionMethod::ModernJPEG.to_u16(), Codec::Jpeg(JPEGDecoder));
        proof {
            reveal_with_fuel(reg_lookup, 6);
            let s5 = r.entries_view();
            assert(s5.drop_last() =~= s4);
            assert(s4.drop_last() =~= s3);
            assert(s3.drop_last() =~= s2);
            assert(s2.drop_last() =~= s1);
            assert(s1.drop_last() =~= Seq::<(u16, Codec)>::empty());
        }
        r
    }
}

} // verus!
