//! An incremental reader for the TIFF family of raster container formats:
//! classic TIFF, BigTIFF and cloud-optimized GeoTIFF.
//!
//! The library parses the directory chain of a TIFF file through an abstract
//! byte-range fetcher, maps tile coordinates to byte ranges, and decodes
//! compressed tiles into typed pixel arrays.

mod array;
mod cache;
mod cog;
mod cursor;
mod decoder;
mod error;
mod fetch;
mod geo;
mod ifd;
mod metadata;
mod predictor;
mod tags;
mod tile;
mod value;

pub use array::{Array, DataType, TypedArray};
pub use cache::{ReadaheadMetadataCache, SequentialBlockCache};
pub use cog::TIFF;
pub use cursor::{EndianAwareReader, Endianness, MetadataCursor};
pub use decoder::{decode_modern_jpeg, Codec, DecoderRegistry, DeflateDecoder, JPEGDecoder, LZWDecoder, UncompressedDecoder};
pub use error::TiffError;
pub use geo::{GeoKeyDirectory, GeoKeyValue};
pub use ifd::ImageFileDirectory;
pub use fetch::{clipped, ranges_overlap, ImageFetch, MemoryFetch, MetadataFetch, PrefetchBuffer};
pub use metadata::{read_tag, ImageFileDirectoryReader, TiffMetadataReader};
pub use predictor::{fix_endianness, host_endianness, unpredict_float, unpredict_hdiff, PredictorInfo};
pub use tags::{CompressionMethod, PhotometricInterpretation, PlanarConfiguration, Predictor, ResolutionUnit, SampleFormat, Tag, Type};
pub use tile::{decode_tile, CompressedBytes, Tile};
pub use value::TagValue;
