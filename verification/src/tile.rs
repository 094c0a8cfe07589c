//! A fetched tile awaiting decode, and the fetch-and-decode entry points
//! on the directory.

use vstd::prelude::*;

use crate::array::{Array, DataType, TypedArray};
use crate::cursor::Endianness;
use crate::decoder::{codec_decodes, reg_lookup, sp_codec_err, sp_codec_output, DecoderRegistry};
use crate::error::TiffError;
use crate::fetch::{clipped, ImageFetch};
use crate::ifd::{sp_chunk_err, sp_chunk_ok, sp_chunk_span, sp_striped, sp_tiled, ImageFileDirectory};
use crate::predictor::{fix_endianness, unpredict_float, unpredict_hdiff, PredictorInfo};
use crate::tags::{
    spec_compression_code, CompressionMethod, PhotometricInterpretation, PlanarConfiguration,
    Predictor,
};

verus! {

/// The compressed payload of one tile: a single chunk for an interleaved
/// tile, one chunk per band for a planar one.
#[derive(Debug, PartialEq)]
pub enum CompressedBytes {
    /// One chunk holding every band interleaved.
    Chunky(Vec<u8>),
    /// One chunk per band.
    Planar(Vec<Vec<u8>>),
}

/// A fetched tile that has not been decoded yet: the compressed payload
/// together with everything the decode pipeline needs. Fetching and
/// decoding are separate so that the blocking decode can run wherever the
/// caller chooses.
#[derive(Debug)]
pub struct Tile {
    /// The tile's column in the tile grid.
    pub x: usize,
    /// The tile's row in the tile grid.
    pub y: usize,
    /// The predictor the writer applied before compression.
    pub predictor: Predictor,
    /// The geometry and layout the predictor stage needs.
    pub predictor_info: PredictorInfo,
    /// The compressed payload.
    pub compressed_bytes: CompressedBytes,
    /// The compression scheme of the payload.
    pub compression_method: CompressionMethod,
    /// The color space of the samples.
    pub photometric_interpretation: PhotometricInterpretation,
    /// The shared JPEG tables of the file, if any.
    pub jpeg_tables: Option<Vec<u8>>,
    /// The element type of the decoded samples, where one is known.
    pub data_type: Option<DataType>,
}

/// Decode one compressed chunk with the codec registered for its
/// compression tag.
pub fn decode_tile(
    buf: Vec<u8>,
    photometric: PhotometricInterpretation,
    compression: CompressionMethod,
    jpeg_tables: Option<&Vec<u8>>,
    registry: &DecoderRegistry,
) -> (r: Result<Vec<u8>, TiffError>)
    ensures
        reg_lookup(registry.entries_view(), spec_compression_code(compression)) is None ==> r
            == Err::<Vec<u8>, TiffError>(
            TiffError::UnsupportedCompression(spec_compression_code(compression)),
        ),
        (r matches Ok(v) ==> reg_lookup(registry.entries_view(), spec_compression_code(compression))
            matches Some(c) && codec_decodes(
            c,
            buf@,
            photometric,
            match jpeg_tables {
                Some(t) => Some(t@),
                None => None::<Seq<u8>>,
            },
            v@,
        )),
        (reg_lookup(registry.entries_view(), spec_compression_code(compression)) matches Some(c)
            ==> {
            let tb = match jpeg_tables {
                Some(t) => Some(t@),
                None => None::<Seq<u8>>,
            };
            &&& (r is Ok <==> sp_codec_output(c, buf@, photometric, tb) is Some)
            &&& (r matches Err(e) ==> e == sp_codec_err(c, buf@, photometric, tb))
        }),
{
    let code = compression.to_u16();
    match registry.get(code) {
        Some(codec) => codec.decode_tile(buf, photometric, jpeg_tables),
        None => Err(TiffError::UnsupportedCompression(code)),
    }
}


/// Whether `fixed` is one planar band's chunk `band` decoded by the
/// registered codec and with the predictor undone.
pub open spec fn sp_band_decoded(
    entries: Seq<(u16, crate::decoder::Codec)>,
    code: u16,
    band: Seq<u8>,
    photometric: PhotometricInterpretation,
    tb: Option<Seq<u8>>,
    predictor: Predictor,
    info: PredictorInfo,
    x: int,
    host: Endianness,
    fixed: Seq<u8>,
) -> bool {
    exists|d: Seq<u8>|
        #![trigger d.len()]
        {
            &&& codec_decodes(reg_lookup(entries, code).unwrap(), band, photometric, tb, d)
            &&& sp_unpredicted(predictor, info, x, host, d, fixed)
        }
}

/// Whether a tile's grid coordinates lie inside the image and its
/// clipped extent fits a machine word.
pub open spec fn sp_tile_geometry_ok(info: PredictorInfo, x: int, y: int) -> bool {
    &&& info.chunk_width > 0
    &&& x * info.chunk_width < info.image_width
    &&& info.chunk_height > 0
    &&& y * info.chunk_height < info.image_height
    &&& crate::predictor::sp_output_width(info, x) <= usize::MAX
    &&& crate::predictor::sp_output_height(info, y) <= usize::MAX
}

/// Whether undoing the tile's predictor succeeds on a decoded chunk of
/// `len` bytes: the byte-order fixup always does; the differencing
/// predictors need a supported layout and whole rows.
pub open spec fn sp_unpredict_ok(
    predictor: Predictor,
    info: PredictorInfo,
    x: int,
    len: int,
) -> bool {
    match predictor {
        Predictor::NoPrediction => true,
        Predictor::Horizontal => crate::predictor::sp_hdiff_ok(info, x, len),
        Predictor::FloatingPoint => crate::predictor::sp_float_ok(info, x, len),
    }
}

/// Whether `out` is `inp` with the tile's predictor undone, the samples
/// handed back in the byte order `host`.
pub open spec fn sp_unpredicted(
    predictor: Predictor,
    info: PredictorInfo,
    x: int,
    host: Endianness,
    inp: Seq<u8>,
    out: Seq<u8>,
) -> bool {
    match predictor {
        Predictor::NoPrediction => crate::predictor::sp_endian_fixed(
            info.endianness,
            host,
            info.bits_per_sample,
            inp,
            out,
        ),
        Predictor::Horizontal => crate::predictor::sp_hdiff_undone(info, x, host, inp, out),
        Predictor::FloatingPoint => crate::predictor::sp_float_undone(info, x, host, inp, out),
    }
}

/// Undo the predictor on one decoded chunk, handing the samples back in
/// the byte order `host`.
fn unpredict_chunk(
    decoded: Vec<u8>,
    predictor: Predictor,
    info: &PredictorInfo,
    x: usize,
    host: Endianness,
) -> (r: Result<Vec<u8>, TiffError>)
    ensures
        (predictor is NoPrediction && (info.endianness == host || !(info.bits_per_sample == 16
            || info.bits_per_sample == 32 || info.bits_per_sample == 64)
            || decoded@.len() as int % ((info.bits_per_sample / 8) as int) != 0)) ==> (r matches Ok(
            v,
        ) && v@ == decoded@),
        (r matches Ok(v) ==> sp_unpredicted(predictor, *info, x as int, host, decoded@, v@)),
        (r is Ok <==> sp_unpredict_ok(predictor, *info, x as int, decoded@.len() as int)),
{
    match predictor {
        Predictor::NoPrediction => {
            let mut out = decoded;
            fix_endianness(&mut out, info.endianness, host, info.bits_per_sample);
            Ok(out)
        },
        Predictor::Horizontal => unpredict_hdiff(decoded, info, x, host),
        Predictor::FloatingPoint => unpredict_float(decoded, info, x, host),
    }
}

impl Tile {
    /// The tile's column in the tile grid.
    pub fn x(&self) -> (r: usize)
        ensures
            r == self.x,
    {
        self.x
    }

    /// The tile's row in the tile grid.
    pub fn y(&self) -> (r: usize)
        ensures
            r == self.y,
    {
        self.y
    }

    /// The compressed payload of this tile.
    pub fn compressed_bytes(&self) -> (r: &CompressedBytes)
        ensures
            *r == self.compressed_bytes,
    {
        &self.compressed_bytes
    }

    /// The compression scheme of the payload.
    pub fn compression_method(&self) -> (r: CompressionMethod)
        ensures
            r == self.compression_method,
    {
        self.compression_method
    }

    /// The color space of the samples.
    pub fn photometric_interpretation(&self) -> (r: PhotometricInterpretation)
        ensures
            r == self.photometric_interpretation,
    {
        self.photometric_interpretation
    }

    /// The shared JPEG tables of the file, if any.
    pub fn jpeg_tables(&self) -> (r: &Option<Vec<u8>>)
        ensures
            *r == self.jpeg_tables,
    {
        &self.jpeg_tables
    }

    /// Decode this tile into a shaped array: run the registered codec,
    /// undo the predictor, and parse the sample bytes in the byte order
    /// `host`. An interleaved tile decodes to rows by columns by bands; a
    /// planar tile to bands by rows by columns, one decoded chunk per
    /// band.
    #[verifier::loop_isolation(false)]
    #[verifier::rlimit(60)]
    pub fn decode(self, registry: &DecoderRegistry, host: Endianness) -> (r: Result<
        Array,
        TiffError,
    >)
        ensures
            (r matches Ok(arr) ==> {
                let info = self.predictor_info;
                let tb = match self.jpeg_tables {
                    Some(t) => Some(t@),
                    None => None::<Seq<u8>>,
                };
                let codec = reg_lookup(
                    registry.entries_view(),
                    spec_compression_code(self.compression_method),
                );
                &&& arr.data_type == self.data_type
                &&& (self.data_type matches Some(t) ==> arr.data.sp_matches(t))
                &&& arr.data.sp_len() == arr.shape.0 * arr.shape.1 * arr.shape.2
                &&& (match self.compressed_bytes {
                    CompressedBytes::Chunky(b) => {
                        &&& arr.shape.0 == crate::predictor::sp_output_height(info, self.y as int)
                        &&& arr.shape.1 == crate::predictor::sp_output_width(info, self.x as int)
                        &&& arr.shape.2 == info.samples_per_pixel
                        &&& codec is Some
                        &&& exists|decoded: Seq<u8>, fixed: Seq<u8>|
                            #![trigger decoded.len(), fixed.len()]
                            {
                                &&& codec_decodes(
                                    codec.unwrap(),
                                    b@,
                                    self.photometric_interpretation,
                                    tb,
                                    decoded,
                                )
                                &&& sp_unpredicted(
                                    self.predictor,
                                    info,
                                    self.x as int,
                                    host,
                                    decoded,
                                    fixed,
                                )
                                &&& crate::array::sp_parsed(fixed, self.data_type, host, arr.data)
                            }
                    },
                    CompressedBytes::Planar(bands) => {
                        &&& arr.shape.0 == bands@.len()
                        &&& arr.shape.1 == crate::predictor::sp_output_height(info, self.y as int)
                        &&& arr.shape.2 == crate::predictor::sp_output_width(info, self.x as int)
                        &&& (bands@.len() > 0 ==> codec is Some)
                        &&& exists|fixeds: Seq<Seq<u8>>|
                            #![trigger fixeds.len()]
                            {
                                &&& fixeds.len() == bands@.len()
                                &&& (forall|bnd: int|
                                    0 <= bnd < bands@.len() ==> sp_band_decoded(
                                        registry.entries_view(),
                                        spec_compression_code(self.compression_method),
                                        (#[trigger] bands@[bnd])@,
                                        self.photometric_interpretation,
                                        tb,
                                        self.predictor,
                                        info,
                                        self.x as int,
                                        host,
                                        fixeds[bnd],
                                    ))
                                &&& crate::array::sp_parsed(
                                    crate::cache::bufs_view(fixeds),
                                    self.data_type,
                                    host,
                                    arr.data,
                                )
                            }
                    },
                })
            }),
            ({
                let info = self.predictor_info;
                &&& sp_tile_geometry_ok(info, self.x as int, self.y as int)
                &&& reg_lookup(
                    registry.entries_view(),
                    spec_compression_code(self.compression_method),
                ) is None
                &&& (self.compressed_bytes matches CompressedBytes::Chunky(_) || (
                self.compressed_bytes matches CompressedBytes::Planar(bands) && bands@.len()
                    > 0))
            }) ==> r == Err::<Array, TiffError>(
                TiffError::UnsupportedCompression(spec_compression_code(self.compression_method)),
            ),
            ({
                let info = self.predictor_info;
                let tb = match self.jpeg_tables {
                    Some(t) => Some(t@),
                    None => None::<Seq<u8>>,
                };
                let codec = reg_lookup(
                    registry.entries_view(),
                    spec_compression_code(self.compression_method),
                );
                &&& self.compressed_bytes matches CompressedBytes::Chunky(b)
                &&& sp_tile_geometry_ok(info, self.x as int, self.y as int)
                &&& codec is Some
                &&& sp_codec_output(
                    codec.unwrap(),
                    self.compressed_bytes->Chunky_0@,
                    self.photometric_interpretation,
                    tb,
                ) matches Some(d)
                &&& sp_unpredict_ok(self.predictor, info, self.x as int, d.len() as int)
                &&& crate::array::sp_parsed_len(self.data_type, d.len() as int)
                    == crate::predictor::sp_output_height(info, self.y as int)
                    * crate::predictor::sp_output_width(info, self.x as int)
                    * info.samples_per_pixel
            }) ==> r is Ok,
    {
        let out_w = match self.predictor_info.output_width(self.x) {
            Ok(w) => w,
            Err(e) => {
                return Err(e);
            },
        };
        let out_h = match self.predictor_info.output_height(self.y) {
            Ok(h) => h,
            Err(e) => {
                return Err(e);
            },
        };
        if out_w as u64 > usize::MAX as u64 || out_h as u64 > usize::MAX as u64 {
            return Err(TiffError::Format(0));
        }
        let info = self.predictor_info;
        let ghost cb = self.compressed_bytes;
        let tables_ref: Option<&Vec<u8>> = match &self.jpeg_tables {
            Some(t) => Some(t),
            None => None,
        };
        proof {
            assert(match tables_ref {
                Some(t) => Some(t@),
                None => None::<Seq<u8>>,
            } == match self.jpeg_tables {
                Some(t) => Some(t@),
                None => None::<Seq<u8>>,
            });
        }
        match self.compressed_bytes {
            CompressedBytes::Chunky(buf) => {
                proof {
                    assert(cb matches CompressedBytes::Chunky(b) && b@ == buf@);
                }
                let decoded = match decode_tile(
                    buf,
                    self.photometric_interpretation,
                    self.compression_method,
                    tables_ref,
                    registry,
                ) {
                    Ok(v) => v,
                    Err(e) => {
                        return Err(e);
                    },
                };
                let fixed = match unpredict_chunk(decoded, self.predictor, &info, self.x, host) {
                    Ok(v) => v,
                    Err(e) => {
                        return Err(e);
                    },
                };
                let ta = TypedArray::new(fixed, self.data_type, host);
                Array::try_new(
                    ta,
                    (out_h as usize, out_w as usize, info.samples_per_pixel as usize),
                    self.data_type,
                )
            },
            CompressedBytes::Planar(bands) => {
                proof {
                    assert(cb is Planar);
                }
                let ghost bands_orig = bands@;
                let nbands = bands.len();
                let mut all: Vec<u8> = Vec::new();
                let ghost mut fixeds: Seq<Seq<u8>> = Seq::empty();
                let mut rest = bands;
                proof {
                    assert(crate::cache::bufs_view(fixeds) =~= all@);
                }
                while rest.len() > 0
                    invariant
                        fixeds.len() + rest@.len() == bands_orig.len(),
                        bands_orig.skip(bands_orig.len() - rest@.len()) =~= rest@,
                        all@ == crate::cache::bufs_view(fixeds),
                        fixeds.len() > 0 ==> reg_lookup(
                            registry.entries_view(),
                            spec_compression_code(self.compression_method),
                        ) is Some,
                        forall|bnd: int|
                            0 <= bnd < fixeds.len() ==> sp_band_decoded(
                                registry.entries_view(),
                                spec_compression_code(self.compression_method),
                                (#[trigger] bands_orig[bnd])@,
                                self.photometric_interpretation,
                                match self.jpeg_tables {
                                    Some(t) => Some(t@),
                                    None => None::<Seq<u8>>,
                                },
                                self.predictor,
                                info,
                                self.x as int,
                                host,
                                fixeds[bnd],
                            ),
                    decreases rest@.len(),
                {
                    let ghost pre = rest@;
                    let band = rest.remove(0);
                    proof {
                        assert(pre.drop_first() =~= rest@);
                        assert(bands_orig.skip(bands_orig.len() - rest@.len()) =~= rest@);
                        assert(band@ == bands_orig[fixeds.len() as int]@);
                    }
                    let decoded = match decode_tile(
                        band,
                        self.photometric_interpretation,
                        self.compression_method,
                        tables_ref,
                        registry,
                    ) {
                        Ok(v) => v,
                        Err(e) => {
                            return Err(e);
                        },
                    };
                    let ghost decoded_view = decoded@;
                    let fixed = match unpredict_chunk(decoded, self.predictor, &info, self.x, host)
                        {
                        Ok(v) => v,
                        Err(e) => {
                            return Err(e);
                        },
                    };
                    let ghost fixed_view = fixed@;
                    let ghost pre_fixeds = fixeds;
                    proof {
                        fixeds = fixeds.push(fixed_view);
                        assert(fixeds.drop_last() =~= pre_fixeds);
                        assert(crate::cache::bufs_view(fixeds) == crate::cache::bufs_view(
                            pre_fixeds,
                        ) + fixed_view);
                    }
                    let mut fixed = fixed;
                    all.append(&mut fixed);
                    proof {
                        assert forall|bnd: int| 0 <= bnd < fixeds.len() implies sp_band_decoded(
                            registry.entries_view(),
                            spec_compression_code(self.compression_method),
                            (#[trigger] bands_orig[bnd])@,
                            self.photometric_interpretation,
                            match self.jpeg_tables {
                                Some(t) => Some(t@),
                                None => None::<Seq<u8>>,
                            },
                            self.predictor,
                            info,
                            self.x as int,
                            host,
                            fixeds[bnd],
                        ) by {
                            if bnd == fixeds.len() - 1 {
                                assert(fixeds[bnd] == fixed_view);
                                assert(decoded_view.len() >= 0);
                                assert(codec_decodes(
                                    reg_lookup(
                                        registry.entries_view(),
                                        spec_compression_code(self.compression_method),
                                    ).unwrap(),
                                    bands_orig[bnd]@,
                                    self.photometric_interpretation,
                                    match self.jpeg_tables {
                                        Some(t) => Some(t@),
                                        None => None::<Seq<u8>>,
                                    },
                                    decoded_view,
                                ) && sp_unpredicted(
                                    self.predictor,
                                    info,
                                    self.x as int,
                                    host,
                                    decoded_view,
                                    fixeds[bnd],
                                ));
                            } else {
                                assert(fixeds[bnd] == pre_fixeds[bnd]);
                            }
                        }
                    }
                }
                proof {
                    assert(bands_orig.skip(bands_orig.len() as int) =~= Seq::<Vec<u8>>::empty());
                }
                let ta = TypedArray::new(all, self.data_type, host);
                Array::try_new(ta, (nbands, out_h as usize, out_w as usize), self.data_type)
            },
        }
    }
}

impl ImageFileDirectory {
    /// Fetch the compressed payload of the tile at column `x`, row `y`:
    /// one byte range for an interleaved directory, one per band for a
    /// planar one. The result carries everything its decode needs; the
    /// byte order of the file is passed in from the file header.
    #[verifier::loop_isolation(false)]
    pub fn fetch_tile<F: ImageFetch>(
        &self,
        x: usize,
        y: usize,
        reader: &mut F,
        endianness: Endianness,
    ) -> (r: Result<Tile, TiffError>)
        ensures
            final (reader).contents() == old(reader).contents(),
            self.bits_per_sample@.len() == 0 ==> r == Err::<Tile, TiffError>(
                TiffError::Format(258),
            ),
            (self.bits_per_sample@.len() > 0 && self.planar_configuration is Chunky
                && !sp_chunk_ok(*self, x as int, y as int, 0)) ==> r == Err::<Tile, TiffError>(
                sp_chunk_err(*self, x as int, y as int, 0),
            ),
            ({
                &&& self.bits_per_sample@.len() > 0
                &&& self.planar_configuration is Planar
                &&& exists|b: int|
                    #![trigger sp_chunk_ok(*self, x as int, y as int, b)]
                    0 <= b < self.samples_per_pixel && !sp_chunk_ok(*self, x as int, y as int, b)
            }) ==> r is Err,
            (r matches Ok(tile) ==> {
                &&& tile.x == x
                &&& tile.y == y
                &&& tile.compression_method == self.compression
                &&& tile.photometric_interpretation == self.photometric_interpretation
                &&& tile.predictor == (match self.predictor {
                    Some(p) => p,
                    None => Predictor::NoPrediction,
                })
                &&& tile.predictor_info.endianness == endianness
                &&& tile.predictor_info.samples_per_pixel == self.samples_per_pixel
                &&& tile.predictor_info.planar_configuration == self.planar_configuration
                &&& (match tile.compressed_bytes {
                    CompressedBytes::Chunky(b) => {
                        &&& self.planar_configuration is Chunky
                        &&& b@ == clipped(
                            old(reader).contents(),
                            sp_chunk_span(*self, x as int, y as int, 0).0,
                            sp_chunk_span(*self, x as int, y as int, 0).1,
                        )
                    },
                    CompressedBytes::Planar(bands) => {
                        &&& self.planar_configuration is Planar
                        &&& bands@.len() == self.samples_per_pixel
                        &&& (forall|b: int|
                            0 <= b < bands@.len() ==> (#[trigger] bands@[b])@ == clipped(
                                old(reader).contents(),
                                sp_chunk_span(*self, x as int, y as int, b).0,
                                sp_chunk_span(*self, x as int, y as int, b).1,
                            ))
                    },
                })
            }),
    {
        if self.bits_per_sample.len() == 0 {
            return Err(TiffError::Format(258));
        }
        let info = PredictorInfo {
            endianness,
            image_width: self.image_width,
            image_height: self.image_height,
            chunk_width: match self.tile_width {
                Some(w) => w,
                None => self.image_width,
            },
            chunk_height: match self.tile_height {
                Some(h) => h,
                None => match self.rows_per_strip {
                    Some(rp) => rp,
                    None => self.image_height,
                },
            },
            bits_per_sample: self.bits_per_sample[0],
            samples_per_pixel: self.samples_per_pixel,
            planar_configuration: self.planar_configuration,
        };
        let predictor = match self.predictor {
            Some(p) => p,
            None => Predictor::NoPrediction,
        };
        let jpeg_tables = match &self.jpeg_tables {
            Some(t) => Some(t.clone()),
            None => None,
        };
        let data_type = DataType::from_tags(&self.sample_format, &self.bits_per_sample);
        let compressed_bytes = match self.planar_configuration {
            PlanarConfiguration::Chunky => {
                let (start, end) = match self.chunk_byte_range(x, y, 0) {
                    Ok(se) => se,
                    Err(e) => {
                        return Err(e);
                    },
                };
                let data = match reader.fetch_range(start, end) {
                    Ok(d) => d,
                    Err(e) => {
                        return Err(e);
                    },
                };
                CompressedBytes::Chunky(data)
            },
            PlanarConfiguration::Planar => {
                let mut ranges: Vec<(u64, u64)> = Vec::new();
                let mut band: usize = 0;
                let nbands = self.samples_per_pixel as usize;
                while band < nbands
                    invariant
                        band <= nbands,
                        ranges@.len() == band,
                        forall|b: int|
                            0 <= b < band ==> #[trigger] ranges@[b].0 <= ranges@[b].1 && (
                            ranges@[b].0 as int, ranges@[b].1 as int) == sp_chunk_span(
                                *self,
                                x as int,
                                y as int,
                                b,
                            ),
                        forall|b: int|
                            0 <= b < band ==> #[trigger] sp_chunk_ok(*self, x as int, y as int, b),
                    decreases nbands - band,
                {
                    match self.chunk_byte_range(x, y, band) {
                        Ok(se) => {
                            proof {
                                assert(se.0 <= se.1);
                            }
                            ranges.push(se);
                        },
                        Err(e) => {
                            return Err(e);
                        },
                    }
                    band = band + 1;
                }
                let bufs = match reader.fetch_ranges(&ranges) {
                    Ok(b) => b,
                    Err(e) => {
                        return Err(e);
                    },
                };
                CompressedBytes::Planar(bufs)
            },
        };
        Ok(
            Tile {
                x,
                y,
                predictor,
                predictor_info: info,
                compressed_bytes,
                compression_method: self.compression,
                photometric_interpretation: self.photometric_interpretation,
                jpeg_tables,
                data_type,
            },
        )
    }

    /// Fetch and decode the tile at column `x`, row `y` in one step,
    /// returning the raw decoded chunk bytes before any predictor is
    /// undone.
    pub fn get_tile<F: ImageFetch>(
        &self,
        x: usize,
        y: usize,
        reader: &mut F,
        decoder_registry: &DecoderRegistry,
    ) -> (r: Result<Vec<u8>, TiffError>)
        ensures
            final (reader).contents() == old(reader).contents(),
            !(sp_tiled(*self) || sp_striped(*self)) ==> r == Err::<Vec<u8>, TiffError>(
                TiffError::NotTiled,
            ),
            !sp_chunk_ok(*self, x as int, y as int, 0) ==> r == Err::<Vec<u8>, TiffError>(
                sp_chunk_err(*self, x as int, y as int, 0),
            ),
            (r matches Ok(v) ==> reg_lookup(
                decoder_registry.entries_view(),
                spec_compression_code(self.compression),
            ) matches Some(c) && codec_decodes(
                c,
                clipped(
                    old(reader).contents(),
                    sp_chunk_span(*self, x as int, y as int, 0).0,
                    sp_chunk_span(*self, x as int, y as int, 0).1,
                ),
                self.photometric_interpretation,
                match self.jpeg_tables {
                    Some(t) => Some(t@),
                    None => None::<Seq<u8>>,
                },
                v@,
            )),
    {
        let (start, end) = match self.get_tile_byte_range(x, y) {
            Ok(se) => se,
            Err(e) => {
                return Err(e);
            },
        };
        let buf = match reader.fetch_range(start, end) {
            Ok(d) => d,
            Err(e) => {
                return Err(e);
            },
        };
        decode_tile(
            buf,
            self.photometric_interpretation,
            self.compression,
            self.jpeg_tables.as_ref(),
            decoder_registry,
        )
    }

    /// Fetch and decode several tiles in one step: the byte ranges are
    /// fetched as one batch, and the decoded chunks come back in the
    /// order of the requested coordinates.
    #[verifier::loop_isolation(false)]
    pub fn get_tiles<F: ImageFetch>(
        &self,
        x: &Vec<usize>,
        y: &Vec<usize>,
        reader: &mut F,
        decoder_registry: &DecoderRegistry,
    ) -> (r: Result<Vec<Vec<u8>>, TiffError>)
        requires
            x@.len() == y@.len(),
        ensures
            final (reader).contents() == old(reader).contents(),
            (exists|i: int|
                #![trigger sp_chunk_ok(*self, x@[i] as int, y@[i] as int, 0)]
                0 <= i < x@.len() && !sp_chunk_ok(*self, x@[i] as int, y@[i] as int, 0)) ==> r
                is Err,
            (r matches Ok(vs) ==> {
                &&& vs@.len() == x@.len()
                &&& (forall|i: int|
                    0 <= i < x@.len() ==> #[trigger] sp_chunk_ok(
                        *self,
                        x@[i] as int,
                        y@[i] as int,
                        0,
                    ))
                &&& (vs@.len() > 0 ==> reg_lookup(
                    decoder_registry.entries_view(),
                    spec_compression_code(self.compression),
                ) is Some)
                &&& (forall|i: int|
                    0 <= i < vs@.len() ==> codec_decodes(
                        reg_lookup(
                            decoder_registry.entries_view(),
                            spec_compression_code(self.compression),
                        ).unwrap(),
                        clipped(
                            old(reader).contents(),
                            sp_chunk_span(*self, x@[i] as int, y@[i] as int, 0).0,
                            sp_chunk_span(*self, x@[i] as int, y@[i] as int, 0).1,
                        ),
                        self.photometric_interpretation,
                        match self.jpeg_tables {
                            Some(t) => Some(t@),
                            None => None::<Seq<u8>>,
                        },
                        (#[trigger] vs@[i])@,
                    ))
            }),
    {
        let n = x.len();
        let mut ranges: Vec<(u64, u64)> = Vec::new();
        let mut i: usize = 0;
        while i < n
            invariant
                i <= n,
                ranges@.len() == i,
                forall|j: int|
                    0 <= j < i ==> #[trigger] ranges@[j].0 <= ranges@[j].1 && (ranges@[j].0 as int,
                    ranges@[j].1 as int) == sp_chunk_span(*self, x@[j] as int, y@[j] as int, 0),
                forall|j: int|
                    0 <= j < i ==> #[trigger] sp_chunk_ok(*self, x@[j] as int, y@[j] as int, 0),
            decreases n - i,
        {
            match self.get_tile_byte_range(x[i], y[i]) {
                Ok(se) => {
                    ranges.push(se);
                },
                Err(e) => {
                    return Err(e);
                },
            }
            i = i + 1;
        }
        let bufs = match reader.fetch_ranges(&ranges) {
            Ok(b) => b,
            Err(e) => {
                return Err(e);
            },
        };
        let mut decoded: Vec<Vec<u8>> = Vec::new();
        let mut rest = bufs;
        let mut k: usize = 0;
        while rest.len() > 0
            invariant
                k + rest@.len() == n,
                decoded@.len() == k,
                forall|j: int|
                    0 <= j < rest@.len() ==> (#[trigger] rest@[j])@ == clipped(
                        old(reader).contents(),
                        sp_chunk_span(*self, x@[k + j] as int, y@[k + j] as int, 0).0,
                        sp_chunk_span(*self, x@[k + j] as int, y@[k + j] as int, 0).1,
                    ),
                k > 0 ==> reg_lookup(
                    decoder_registry.entries_view(),
                    spec_compression_code(self.compression),
                ) is Some,
                forall|j: int|
                    0 <= j < k ==> codec_decodes(
                        reg_lookup(
                            decoder_registry.entries_view(),
                            spec_compression_code(self.compression),
                        ).unwrap(),
                        clipped(
                            old(reader).contents(),
                            sp_chunk_span(*self, x@[j] as int, y@[j] as int, 0).0,
                            sp_chunk_span(*self, x@[j] as int, y@[j] as int, 0).1,
                        ),
                        self.photometric_interpretation,
                        match self.jpeg_tables {
                            Some(t) => Some(t@),
                            None => None::<Seq<u8>>,
                        },
                        (#[trigger] decoded@[j])@,
                    ),
            decreases rest@.len(),
        {
            let ghost pre = rest@;
            let buf = rest.remove(0);
            proof {
                assert(pre.drop_first() =~= rest@);
            }
            match decode_tile(
                buf,
                self.photometric_interpretation,
                self.compression,
                self.jpeg_tables.as_ref(),
                decoder_registry,
            ) {
                Ok(v) => {
                    decoded.push(v);
                },
                Err(e) => {
                    return Err(e);
                },
            }
            k = k + 1;
        }
        Ok(decoded)
    }
}

} // verus!
