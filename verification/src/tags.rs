//! TIFF tag identifiers and the closed enumerations carried by well-known
//! tags.

use vstd::prelude::*;

verus! {

/// A TIFF, BigTIFF, GeoTIFF or GDAL tag identifier.
#[derive(Debug, Clone, Copy, PartialEq, Eq, Structural, Hash)]
pub enum Tag {
    Artist,
    BitsPerSample,
    CellLength,
    CellWidth,
    ColorMap,
    Compression,
    Copyright,
    DateTime,
    ExtraSamples,
    FillOrder,
    FreeByteCounts,
    FreeOffsets,
    GrayResponseCurve,
    GrayResponseUnit,
    HostComputer,
    ImageDescription,
    ImageLength,
    ImageWidth,
    Make,
    MaxSampleValue,
    MinSampleValue,
    Model,
    NewSubfileType,
    Orientation,
    PhotometricInterpretation,
    PlanarConfiguration,
    ResolutionUnit,
    RowsPerStrip,
    SamplesPerPixel,
    Software,
    StripByteCounts,
    StripOffsets,
    SubfileType,
    Threshholding,
    XResolution,
    YResolution,
    Predictor,
    TileWidth,
    TileLength,
    TileOffsets,
    TileByteCounts,
    SampleFormat,
    SMinSampleValue,
    SMaxSampleValue,
    JPEGTables,
    ModelPixelScale,
    ModelTransformation,
    ModelTiepoint,
    GeoKeyDirectory,
    GeoDoubleParams,
    GeoAsciiParams,
    GdalNodata,
    GdalMetadata,
    DocumentName,
    /// A value that is not one of the known codes.
    Unknown(u16),
}

/// The Tag a code denotes; an unlisted code maps to `Unknown`.
pub open spec fn spec_tag_from(c: u16) -> Tag {
    match c {
        315u16 => Tag::Artist,
        258u16 => Tag::BitsPerSample,
        265u16 => Tag::CellLength,
        264u16 => Tag::CellWidth,
        320u16 => Tag::ColorMap,
        259u16 => Tag::Compression,
        33432u16 => Tag::Copyright,
        306u16 => Tag::DateTime,
        338u16 => Tag::ExtraSamples,
        266u16 => Tag::FillOrder,
        289u16 => Tag::FreeByteCounts,
        288u16 => Tag::FreeOffsets,
        291u16 => Tag::GrayResponseCurve,
        290u16 => Tag::GrayResponseUnit,
        316u16 => Tag::HostComputer,
        270u16 => Tag::ImageDescription,
        257u16 => Tag::ImageLength,
        256u16 => Tag::ImageWidth,
        271u16 => Tag::Make,
        281u16 => Tag::MaxSampleValue,
        280u16 => Tag::MinSampleValue,
        272u16 => Tag::Model,
        254u16 => Tag::NewSubfileType,
        274u16 => Tag::Orientation,
        262u16 => Tag::PhotometricInterpretation,
        284u16 => Tag::PlanarConfiguration,
        296u16 => Tag::ResolutionUnit,
        278u16 => Tag::RowsPerStrip,
        277u16 => Tag::SamplesPerPixel,
        305u16 => Tag::Software,
        279u16 => Tag::StripByteCounts,
        273u16 => Tag::StripOffsets,
        255u16 => Tag::SubfileType,
        263u16 => Tag::Threshholding,
        282u16 => Tag::XResolution,
        283u16 => Tag::YResolution,
        317u16 => Tag::Predictor,
        322u16 => Tag::TileWidth,
        323u16 => Tag::TileLength,
        324u16 => Tag::TileOffsets,
        325u16 => Tag::TileByteCounts,
        339u16 => Tag::SampleFormat,
        340u16 => Tag::SMinSampleValue,
        341u16 => Tag::SMaxSampleValue,
        347u16 => Tag::JPEGTables,
        33550u16 => Tag::ModelPixelScale,
        34264u16 => Tag::ModelTransformation,
        33922u16 => Tag::ModelTiepoint,
        34735u16 => Tag::GeoKeyDirectory,
        34736u16 => Tag::GeoDoubleParams,
        34737u16 => Tag::GeoAsciiParams,
        42113u16 => Tag::GdalNodata,
        42112u16 => Tag::GdalMetadata,
        269u16 => Tag::DocumentName,
        _ => Tag::Unknown(c),
    }
}

/// The code of a Tag.
pub open spec fn spec_tag_code(t: Tag) -> u16 {
    match t {
        Tag::Artist => 315u16,
        Tag::BitsPerSample => 258u16,
        Tag::CellLength => 265u16,
        Tag::CellWidth => 264u16,
        Tag::ColorMap => 320u16,
        Tag::Compression => 259u16,
        Tag::Copyright => 33432u16,
        Tag::DateTime => 306u16,
        Tag::ExtraSamples => 338u16,
        Tag::FillOrder => 266u16,
        Tag::FreeByteCounts => 289u16,
        Tag::FreeOffsets => 288u16,
        Tag::GrayResponseCurve => 291u16,
        Tag::GrayResponseUnit => 290u16,
        Tag::HostComputer => 316u16,
        Tag::ImageDescription => 270u16,
        Tag::ImageLength => 257u16,
        Tag::ImageWidth => 256u16,
        Tag::Make => 271u16,
        Tag::MaxSampleValue => 281u16,
        Tag::MinSampleValue => 280u16,
        Tag::Model => 272u16,
        Tag::NewSubfileType => 254u16,
        Tag::Orientation => 274u16,
        Tag::PhotometricInterpretation => 262u16,
        Tag::PlanarConfiguration => 284u16,
        Tag::ResolutionUnit => 296u16,
        Tag::RowsPerStrip => 278u16,
        Tag::SamplesPerPixel => 277u16,
        Tag::Software => 305u16,
        Tag::StripByteCounts => 279u16,
        Tag::StripOffsets => 273u16,
        Tag::SubfileType => 255u16,
        Tag::Threshholding => 263u16,
        Tag::XResolution => 282u16,
        Tag::YResolution => 283u16,
        Tag::Predictor => 317u16,
        Tag::TileWidth => 322u16,
        Tag::TileLength => 323u16,
        Tag::TileOffsets => 324u16,
        Tag::TileByteCounts => 325u16,
        Tag::SampleFormat => 339u16,
        Tag::SMinSampleValue => 340u16,
        Tag::SMaxSampleValue => 341u16,
        Tag::JPEGTables => 347u16,
        Tag::ModelPixelScale => 33550u16,
        Tag::ModelTransformation => 34264u16,
        Tag::ModelTiepoint => 33922u16,
        Tag::GeoKeyDirectory => 34735u16,
        Tag::GeoDoubleParams => 34736u16,
        Tag::GeoAsciiParams => 34737u16,
        Tag::GdalNodata => 42113u16,
        Tag::GdalMetadata => 42112u16,
        Tag::DocumentName => 269u16,
        Tag::Unknown(c) => c,
    }
}

impl Tag {
    /// The variant for a code, or `None` for a code not listed.
    pub fn from_u16(c: u16) -> (r: Option<Tag>)
        ensures
            r == if spec_tag_from(c) is Unknown {
                None::<Tag>
            } else {
                Some(spec_tag_from(c))
            },
    {
        match c {
            315 => Some(Tag::Artist),
            258 => Some(Tag::BitsPerSample),
            265 => Some(Tag::CellLength),
            264 => Some(Tag::CellWidth),
            320 => Some(Tag::ColorMap),
            259 => Some(Tag::Compression),
            33432 => Some(Tag::Copyright),
            306 => Some(Tag::DateTime),
            338 => Some(Tag::ExtraSamples),
            266 => Some(Tag::FillOrder),
            289 => Some(Tag::FreeByteCounts),
            288 => Some(Tag::FreeOffsets),
            291 => Some(Tag::GrayResponseCurve),
            290 => Some(Tag::GrayResponseUnit),
            316 => Some(Tag::HostComputer),
            270 => Some(Tag::ImageDescription),
            257 => Some(Tag::ImageLength),
            256 => Some(Tag::ImageWidth),
            271 => Some(Tag::Make),
            281 => Some(Tag::MaxSampleValue),
            280 => Some(Tag::MinSampleValue),
            272 => Some(Tag::Model),
            254 => Some(Tag::NewSubfileType),
            274 => Some(Tag::Orientation),
            262 => Some(Tag::PhotometricInterpretation),
            284 => Some(Tag::PlanarConfiguration),
            296 => Some(Tag::ResolutionUnit),
            278 => Some(Tag::RowsPerStrip),
            277 => Some(Tag::SamplesPerPixel),
            305 => Some(Tag::Software),
            279 => Some(Tag::StripByteCounts),
            273 => Some(Tag::StripOffsets),
            255 => Some(Tag::SubfileType),
            263 => Some(Tag::Threshholding),
            282 => Some(Tag::XResolution),
            283 => Some(Tag::YResolution),
            317 => Some(Tag::Predictor),
            322 => Some(Tag::TileWidth),
            323 => Some(Tag::TileLength),
            324 => Some(Tag::TileOffsets),
            325 => Some(Tag::TileByteCounts),
            339 => Some(Tag::SampleFormat),
            340 => Some(Tag::SMinSampleValue),
            341 => Some(Tag::SMaxSampleValue),
            347 => Some(Tag::JPEGTables),
            33550 => Some(Tag::ModelPixelScale),
            34264 => Some(Tag::ModelTransformation),
            33922 => Some(Tag::ModelTiepoint),
            34735 => Some(Tag::GeoKeyDirectory),
            34736 => Some(Tag::GeoDoubleParams),
            34737 => Some(Tag::GeoAsciiParams),
            42113 => Some(Tag::GdalNodata),
            42112 => Some(Tag::GdalMetadata),
            269 => Some(Tag::DocumentName),
            _ => None,
        }
    }

    /// The variant for a code, keeping an unlisted code as `Unknown`.
    pub fn from_u16_exhaustive(c: u16) -> (r: Tag)
        ensures
            r == spec_tag_from(c),
    {
        match c {
            315 => Tag::Artist,
            258 => Tag::BitsPerSample,
            265 => Tag::CellLength,
            264 => Tag::CellWidth,
            320 => Tag::ColorMap,
            259 => Tag::Compression,
            33432 => Tag::Copyright,
            306 => Tag::DateTime,
            338 => Tag::ExtraSamples,
            266 => Tag::FillOrder,
            289 => Tag::FreeByteCounts,
            288 => Tag::FreeOffsets,
            291 => Tag::GrayResponseCurve,
            290 => Tag::GrayResponseUnit,
            316 => Tag::HostComputer,
            270 => Tag::ImageDescription,
            257 => Tag::ImageLength,
            256 => Tag::ImageWidth,
            271 => Tag::Make,
            281 => Tag::MaxSampleValue,
            280 => Tag::MinSampleValue,
            272 => Tag::Model,
            254 => Tag::NewSubfileType,
            274 => Tag::Orientation,
            262 => Tag::PhotometricInterpretation,
            284 => Tag::PlanarConfiguration,
            296 => Tag::ResolutionUnit,
            278 => Tag::RowsPerStrip,
            277 => Tag::SamplesPerPixel,
            305 => Tag::Software,
            279 => Tag::StripByteCounts,
            273 => Tag::StripOffsets,
            255 => Tag::SubfileType,
            263 => Tag::Threshholding,
            282 => Tag::XResolution,
            283 => Tag::YResolution,
            317 => Tag::Predictor,
            322 => Tag::TileWidth,
            323 => Tag::TileLength,
            324 => Tag::TileOffsets,
            325 => Tag::TileByteCounts,
            339 => Tag::SampleFormat,
            340 => Tag::SMinSampleValue,
            341 => Tag::SMaxSampleValue,
            347 => Tag::JPEGTables,
            33550 => Tag::ModelPixelScale,
            34264 => Tag::ModelTransformation,
            33922 => Tag::ModelTiepoint,
            34735 => Tag::GeoKeyDirectory,
            34736 => Tag::GeoDoubleParams,
            34737 => Tag::GeoAsciiParams,
            42113 => Tag::GdalNodata,
            42112 => Tag::GdalMetadata,
            269 => Tag::DocumentName,
            _ => Tag::Unknown(c),
        }
    }

    /// The code of this variant.
    pub fn to_u16(self) -> (r: u16)
        ensures
            r == spec_tag_code(self),
    {
        match self {
            Tag::Artist => 315,
            Tag::BitsPerSample => 258,
            Tag::CellLength => 265,
            Tag::CellWidth => 264,
            Tag::ColorMap => 320,
            Tag::Compression => 259,
            Tag::Copyright => 33432,
            Tag::DateTime => 306,
            Tag::ExtraSamples => 338,
            Tag::FillOrder => 266,
            Tag::FreeByteCounts => 289,
            Tag::FreeOffsets => 288,
            Tag::GrayResponseCurve => 291,
            Tag::GrayResponseUnit => 290,
            Tag::HostComputer => 316,
            Tag::ImageDescription => 270,
            Tag::ImageLength => 257,
            Tag::ImageWidth => 256,
            Tag::Make => 271,
            Tag::MaxSampleValue => 281,
            Tag::MinSampleValue => 280,
            Tag::Model => 272,
            Tag::NewSubfileType => 254,
            Tag::Orientation => 274,
            Tag::PhotometricInterpretation => 262,
            Tag::PlanarConfiguration => 284,
            Tag::ResolutionUnit => 296,
            Tag::RowsPerStrip => 278,
            Tag::SamplesPerPixel => 277,
            Tag::Software => 305,
            Tag::StripByteCounts => 279,
            Tag::StripOffsets => 273,
            Tag::SubfileType => 255,
            Tag::Threshholding => 263,
            Tag::XResolution => 282,
            Tag::YResolution => 283,
            Tag::Predictor => 317,
            Tag::TileWidth => 322,
            Tag::TileLength => 323,
            Tag::TileOffsets => 324,
            Tag::TileByteCounts => 325,
            Tag::SampleFormat => 339,
            Tag::SMinSampleValue => 340,
            Tag::SMaxSampleValue => 341,
            Tag::JPEGTables => 347,
            Tag::ModelPixelScale => 33550,
            Tag::ModelTransformation => 34264,
            Tag::ModelTiepoint => 33922,
            Tag::GeoKeyDirectory => 34735,
            Tag::GeoDoubleParams => 34736,
            Tag::GeoAsciiParams => 34737,
            Tag::GdalNodata => 42113,
            Tag::GdalMetadata => 42112,
            Tag::DocumentName => 269,
            Tag::Unknown(c) => c,
        }
    }
}

/// The data type of an IFD entry.
#[derive(Debug, Clone, Copy, PartialEq, Eq, Structural, Hash)]
pub enum Type {
    BYTE,
    ASCII,
    SHORT,
    LONG,
    RATIONAL,
    SBYTE,
    UNDEFINED,
    SSHORT,
    SLONG,
    SRATIONAL,
    FLOAT,
    DOUBLE,
    IFD,
    LONG8,
    SLONG8,
    IFD8,
}

/// The Type a code denotes, if any.
pub open spec fn spec_type_from(c: u16) -> Option<Type> {
    match c {
        1u16 => Some(Type::BYTE),
        2u16 => Some(Type::ASCII),
        3u16 => Some(Type::SHORT),
        4u16 => Some(Type::LONG),
        5u16 => Some(Type::RATIONAL),
        6u16 => Some(Type::SBYTE),
        7u16 => Some(Type::UNDEFINED),
        8u16 => Some(Type::SSHORT),
        9u16 => Some(Type::SLONG),
        10u16 => Some(Type::SRATIONAL),
        11u16 => Some(Type::FLOAT),
        12u16 => Some(Type::DOUBLE),
        13u16 => Some(Type::IFD),
        16u16 => Some(Type::LONG8),
        17u16 => Some(Type::SLONG8),
        18u16 => Some(Type::IFD8),
        _ => None,
    }
}

/// The code of a Type.
pub open spec fn spec_type_code(t: Type) -> u16 {
    match t {
        Type::BYTE => 1u16,
        Type::ASCII => 2u16,
        Type::SHORT => 3u16,
        Type::LONG => 4u16,
        Type::RATIONAL => 5u16,
        Type::SBYTE => 6u16,
        Type::UNDEFINED => 7u16,
        Type::SSHORT => 8u16,
        Type::SLONG => 9u16,
        Type::SRATIONAL => 10u16,
        Type::FLOAT => 11u16,
        Type::DOUBLE => 12u16,
        Type::IFD => 13u16,
        Type::LONG8 => 16u16,
        Type::SLONG8 => 17u16,
        Type::IFD8 => 18u16,
    }
}

impl Type {
    /// The variant for a code, or `None` for a code not listed.
    pub fn from_u16(c: u16) -> (r: Option<Type>)
        ensures
            r == spec_type_from(c),
    {
        match c {
            1 => Some(Type::BYTE),
            2 => Some(Type::ASCII),
            3 => Some(Type::SHORT),
            4 => Some(Type::LONG),
            5 => Some(Type::RATIONAL),
            6 => Some(Type::SBYTE),
            7 => Some(Type::UNDEFINED),
            8 => Some(Type::SSHORT),
            9 => Some(Type::SLONG),
            10 => Some(Type::SRATIONAL),
            11 => Some(Type::FLOAT),
            12 => Some(Type::DOUBLE),
            13 => Some(Type::IFD),
            16 => Some(Type::LONG8),
            17 => Some(Type::SLONG8),
            18 => Some(Type::IFD8),
            _ => None,
        }
    }

    /// The code of this variant.
    pub fn to_u16(self) -> (r: u16)
        ensures
            r == spec_type_code(self),
    {
        match self {
            Type::BYTE => 1,
            Type::ASCII => 2,
            Type::SHORT => 3,
            Type::LONG => 4,
            Type::RATIONAL => 5,
            Type::SBYTE => 6,
            Type::UNDEFINED => 7,
            Type::SSHORT => 8,
            Type::SLONG => 9,
            Type::SRATIONAL => 10,
            Type::FLOAT => 11,
            Type::DOUBLE => 12,
            Type::IFD => 13,
            Type::LONG8 => 16,
            Type::SLONG8 => 17,
            Type::IFD8 => 18,
        }
    }
}

/// A known compression method.
#[derive(Debug, Clone, Copy, PartialEq, Eq, Structural, Hash)]
pub enum CompressionMethod {
    Uncompressed,
    Huffman,
    Fax3,
    Fax4,
    LZW,
    JPEG,
    ModernJPEG,
    Deflate,
    OldDeflate,
    PackBits,
    JPEG2k,
    ZSTD,
    /// A value that is not one of the known codes.
    Unknown(u16),
}

/// The CompressionMethod a code denotes; an unlisted code maps to `Unknown`.
pub open spec fn spec_compression_from(c: u16) -> CompressionMethod {
    match c {
        1u16 => CompressionMethod::Uncompressed,
        2u16 => CompressionMethod::Huffman,
        3u16 => CompressionMethod::Fax3,
        4u16 => CompressionMethod::Fax4,
        5u16 => CompressionMethod::LZW,
        6u16 => CompressionMethod::JPEG,
        7u16 => CompressionMethod::ModernJPEG,
        8u16 => CompressionMethod::Deflate,
        32946u16 => CompressionMethod::OldDeflate,
        32773u16 => CompressionMethod::PackBits,
        34712u16 => CompressionMethod::JPEG2k,
        50000u16 => CompressionMethod::ZSTD,
        _ => CompressionMethod::Unknown(c),
    }
}

/// The code of a CompressionMethod.
pub open spec fn spec_compression_code(t: CompressionMethod) -> u16 {
    match t {
        CompressionMethod::Uncompressed => 1u16,
        CompressionMethod::Huffman => 2u16,
        CompressionMethod::Fax3 => 3u16,
        CompressionMethod::Fax4 => 4u16,
        CompressionMethod::LZW => 5u16,
        CompressionMethod::JPEG => 6u16,
        CompressionMethod::ModernJPEG => 7u16,
        CompressionMethod::Deflate => 8u16,
        CompressionMethod::OldDeflate => 32946u16,
        CompressionMethod::PackBits => 32773u16,
        CompressionMethod::JPEG2k => 34712u16,
        CompressionMethod::ZSTD => 50000u16,
        CompressionMethod::Unknown(c) => c,
    }
}

impl CompressionMethod {
    /// The variant for a code, or `None` for a code not listed.
    pub fn from_u16(c: u16) -> (r: Option<CompressionMethod>)
        ensures
            r == if spec_compression_from(c) is Unknown {
                None::<CompressionMethod>
            } else {
                Some(spec_compression_from(c))
            },
    {
        match c {
            1 => Some(CompressionMethod::Uncompressed),
            2 => Some(CompressionMethod::Huffman),
            3 => Some(CompressionMethod::Fax3),
            4 => Some(CompressionMethod::Fax4),
            5 => Some(CompressionMethod::LZW),
            6 => Some(CompressionMethod::JPEG),
            7 => Some(CompressionMethod::ModernJPEG),
            8 => Some(CompressionMethod::Deflate),
            32946 => Some(CompressionMethod::OldDeflate),
            32773 => Some(CompressionMethod::PackBits),
            34712 => Some(CompressionMethod::JPEG2k),
            50000 => Some(CompressionMethod::ZSTD),
            _ => None,
        }
    }

    /// The variant for a code, keeping an unlisted code as `Unknown`.
    pub fn from_u16_exhaustive(c: u16) -> (r: CompressionMethod)
        ensures
            r == spec_compression_from(c),
    {
        match c {
            1 => CompressionMethod::Uncompressed,
            2 => CompressionMethod::Huffman,
            3 => CompressionMethod::Fax3,
            4 => CompressionMethod::Fax4,
            5 => CompressionMethod::LZW,
            6 => CompressionMethod::JPEG,
            7 => CompressionMethod::ModernJPEG,
            8 => CompressionMethod::Deflate,
            32946 => CompressionMethod::OldDeflate,
            32773 => CompressionMethod::PackBits,
            34712 => CompressionMethod::JPEG2k,
            50000 => CompressionMethod::ZSTD,
            _ => CompressionMethod::Unknown(c),
        }
    }

    /// The code of this variant.
    pub fn to_u16(self) -> (r: u16)
        ensures
            r == spec_compression_code(self),
    {
        match self {
            CompressionMethod::Uncompressed => 1,
            CompressionMethod::Huffman => 2,
            CompressionMethod::Fax3 => 3,
            CompressionMethod::Fax4 => 4,
            CompressionMethod::LZW => 5,
            CompressionMethod::JPEG => 6,
            CompressionMethod::ModernJPEG => 7,
            CompressionMethod::Deflate => 8,
            CompressionMethod::OldDeflate => 32946,
            CompressionMethod::PackBits => 32773,
            CompressionMethod::JPEG2k => 34712,
            CompressionMethod::ZSTD => 50000,
            CompressionMethod::Unknown(c) => c,
        }
    }
}

/// The color space of the image data.
#[derive(Debug, Clone, Copy, PartialEq, Eq, Structural, Hash)]
pub enum PhotometricInterpretation {
    WhiteIsZero,
    BlackIsZero,
    RGB,
    RGBPalette,
    TransparencyMask,
    CMYK,
    YCbCr,
    CIELab,
}

/// The PhotometricInterpretation a code denotes, if any.
pub open spec fn spec_photometric_from(c: u16) -> Option<PhotometricInterpretation> {
    match c {
        0u16 => Some(PhotometricInterpretation::WhiteIsZero),
        1u16 => Some(PhotometricInterpretation::BlackIsZero),
        2u16 => Some(PhotometricInterpretation::RGB),
        3u16 => Some(PhotometricInterpretation::RGBPalette),
        4u16 => Some(PhotometricInterpretation::TransparencyMask),
        5u16 => Some(PhotometricInterpretation::CMYK),
        6u16 => Some(PhotometricInterpretation::YCbCr),
        8u16 => Some(PhotometricInterpretation::CIELab),
        _ => None,
    }
}

/// The code of a PhotometricInterpretation.
pub open spec fn spec_photometric_code(t: PhotometricInterpretation) -> u16 {
    match t {
        PhotometricInterpretation::WhiteIsZero => 0u16,
        PhotometricInterpretation::BlackIsZero => 1u16,
        PhotometricInterpretation::RGB => 2u16,
        PhotometricInterpretation::RGBPalette => 3u16,
        PhotometricInterpretation::TransparencyMask => 4u16,
        PhotometricInterpretation::CMYK => 5u16,
        PhotometricInterpretation::YCbCr => 6u16,
        PhotometricInterpretation::CIELab => 8u16,
    }
}

impl PhotometricInterpretation {
    /// The variant for a code, or `None` for a code not listed.
    pub fn from_u16(c: u16) -> (r: Option<PhotometricInterpretation>)
        ensures
            r == spec_photometric_from(c),
    {
        match c {
            0 => Some(PhotometricInterpretation::WhiteIsZero),
            1 => Some(PhotometricInterpretation::BlackIsZero),
            2 => Some(PhotometricInterpretation::RGB),
            3 => Some(PhotometricInterpretation::RGBPalette),
            4 => Some(PhotometricInterpretation::TransparencyMask),
            5 => Some(PhotometricInterpretation::CMYK),
            6 => Some(PhotometricInterpretation::YCbCr),
            8 => Some(PhotometricInterpretation::CIELab),
            _ => None,
        }
    }

    /// The code of this variant.
    pub fn to_u16(self) -> (r: u16)
        ensures
            r == spec_photometric_code(self),
    {
        match self {
            PhotometricInterpretation::WhiteIsZero => 0,
            PhotometricInterpretation::BlackIsZero => 1,
            PhotometricInterpretation::RGB => 2,
            PhotometricInterpretation::RGBPalette => 3,
            PhotometricInterpretation::TransparencyMask => 4,
            PhotometricInterpretation::CMYK => 5,
            PhotometricInterpretation::YCbCr => 6,
            PhotometricInterpretation::CIELab => 8,
        }
    }
}

/// How pixel components are stored: interleaved (chunky) or in separate planes (planar).
#[derive(Debug, Clone, Copy, PartialEq, Eq, Structural, Hash)]
pub enum PlanarConfiguration {
    Chunky,
    Planar,
}

/// The PlanarConfiguration a code denotes, if any.
pub open spec fn spec_planar_from(c: u16) -> Option<PlanarConfiguration> {
    match c {
        1u16 => Some(PlanarConfiguration::Chunky),
        2u16 => Some(PlanarConfiguration::Planar),
        _ => None,
    }
}

/// The code of a PlanarConfiguration.
pub open spec fn spec_planar_code(t: PlanarConfiguration) -> u16 {
    match t {
        PlanarConfiguration::Chunky => 1u16,
        PlanarConfiguration::Planar => 2u16,
    }
}

impl PlanarConfiguration {
    /// The variant for a code, or `None` for a code not listed.
    pub fn from_u16(c: u16) -> (r: Option<PlanarConfiguration>)
        ensures
            r == spec_planar_from(c),
    {
        match c {
            1 => Some(PlanarConfiguration::Chunky),
            2 => Some(PlanarConfiguration::Planar),
            _ => None,
        }
    }

    /// The code of this variant.
    pub fn to_u16(self) -> (r: u16)
        ensures
            r == spec_planar_code(self),
    {
        match self {
            PlanarConfiguration::Chunky => 1,
            PlanarConfiguration::Planar => 2,
        }
    }
}

/// The reversible transform a writer applied to sample data before compression.
#[derive(Debug, Clone, Copy, PartialEq, Eq, Structural, Hash)]
pub enum Predictor {
    NoPrediction,
    Horizontal,
    FloatingPoint,
}

/// The Predictor a code denotes, if any.
pub open spec fn spec_predictor_from(c: u16) -> Option<Predictor> {
    match c {
        1u16 => Some(Predictor::NoPrediction),
        2u16 => Some(Predictor::Horizontal),
        3u16 => Some(Predictor::FloatingPoint),
        _ => None,
    }
}

/// The code of a Predictor.
pub open spec fn spec_predictor_code(t: Predictor) -> u16 {
    match t {
        Predictor::NoPrediction => 1u16,
        Predictor::Horizontal => 2u16,
        Predictor::FloatingPoint => 3u16,
    }
}

impl Predictor {
    /// The variant for a code, or `None` for a code not listed.
    pub fn from_u16(c: u16) -> (r: Option<Predictor>)
        ensures
            r == spec_predictor_from(c),
    {
        match c {
            1 => Some(Predictor::NoPrediction),
            2 => Some(Predictor::Horizontal),
            3 => Some(Predictor::FloatingPoint),
            _ => None,
        }
    }

    /// The code of this variant.
    pub fn to_u16(self) -> (r: u16)
        ensures
            r == spec_predictor_code(self),
    {
        match self {
            Predictor::NoPrediction => 1,
            Predictor::Horizontal => 2,
            Predictor::FloatingPoint => 3,
        }
    }
}

/// The unit of pixel resolution.
#[derive(Debug, Clone, Copy, PartialEq, Eq, Structural, Hash)]
pub enum ResolutionUnit {
    NoUnit,
    Inch,
    Centimeter,
}

/// The ResolutionUnit a code denotes, if any.
pub open spec fn spec_resolution_from(c: u16) -> Option<ResolutionUnit> {
    match c {
        1u16 => Some(ResolutionUnit::NoUnit),
        2u16 => Some(ResolutionUnit::Inch),
        3u16 => Some(ResolutionUnit::Centimeter),
        _ => None,
    }
}

/// The code of a ResolutionUnit.
pub open spec fn spec_resolution_code(t: ResolutionUnit) -> u16 {
    match t {
        ResolutionUnit::NoUnit => 1u16,
        ResolutionUnit::Inch => 2u16,
        ResolutionUnit::Centimeter => 3u16,
    }
}

impl ResolutionUnit {
    /// The variant for a code, or `None` for a code not listed.
    pub fn from_u16(c: u16) -> (r: Option<ResolutionUnit>)
        ensures
            r == spec_resolution_from(c),
    {
        match c {
            1 => Some(ResolutionUnit::NoUnit),
            2 => Some(ResolutionUnit::Inch),
            3 => Some(ResolutionUnit::Centimeter),
            _ => None,
        }
    }

    /// The code of this variant.
    pub fn to_u16(self) -> (r: u16)
        ensures
            r == spec_resolution_code(self),
    {
        match self {
            ResolutionUnit::NoUnit => 1,
            ResolutionUnit::Inch => 2,
            ResolutionUnit::Centimeter => 3,
        }
    }
}

/// The numeric format of the sample values in each pixel.
#[derive(Debug, Clone, Copy, PartialEq, Eq, Structural, Hash)]
pub enum SampleFormat {
    Uint,
    Int,
    Float,
    Void,
    /// A value that is not one of the known codes.
    Unknown(u16),
}

/// The SampleFormat a code denotes; an unlisted code maps to `Unknown`.
pub open spec fn spec_sample_format_from(c: u16) -> SampleFormat {
    match c {
        1u16 => SampleFormat::Uint,
        2u16 => SampleFormat::Int,
        3u16 => SampleFormat::Float,
        4u16 => SampleFormat::Void,
        _ => SampleFormat::Unknown(c),
    }
}

/// The code of a SampleFormat.
pub open spec fn spec_sample_format_code(t: SampleFormat) -> u16 {
    match t {
        SampleFormat::Uint => 1u16,
        SampleFormat::Int => 2u16,
        SampleFormat::Float => 3u16,
        SampleFormat::Void => 4u16,
        SampleFormat::Unknown(c) => c,
    }
}

impl SampleFormat {
    /// The variant for a code, or `None` for a code not listed.
    pub fn from_u16(c: u16) -> (r: Option<SampleFormat>)
        ensures
            r == if spec_sample_format_from(c) is Unknown {
                None::<SampleFormat>
            } else {
                Some(spec_sample_format_from(c))
            },
    {
        match c {
            1 => Some(SampleFormat::Uint),
            2 => Some(SampleFormat::Int),
            3 => Some(SampleFormat::Float),
            4 => Some(SampleFormat::Void),
            _ => None,
        }
    }

    /// The variant for a code, keeping an unlisted code as `Unknown`.
    pub fn from_u16_exhaustive(c: u16) -> (r: SampleFormat)
        ensures
            r == spec_sample_format_from(c),
    {
        match c {
            1 => SampleFormat::Uint,
            2 => SampleFormat::Int,
            3 => SampleFormat::Float,
            4 => SampleFormat::Void,
            _ => SampleFormat::Unknown(c),
        }
    }

    /// The code of this variant.
    pub fn to_u16(self) -> (r: u16)
        ensures
            r == spec_sample_format_code(self),
    {
        match self {
            SampleFormat::Uint => 1,
            SampleFormat::Int => 2,
            SampleFormat::Float => 3,
            SampleFormat::Void => 4,
            SampleFormat::Unknown(c) => c,
        }
    }
}

} // verus!
