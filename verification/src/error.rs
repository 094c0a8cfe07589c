//! Error categories surfaced by the reader.

use vstd::prelude::*;

verus! {

/// An error produced while parsing TIFF metadata, addressing tiles, or
/// decoding tile data.
#[derive(Debug, Clone, Copy, PartialEq, Eq, Structural)]
pub enum TiffError {
    /// The underlying fetcher failed.
    Io,
    /// The source ended before the requested range: `expected` bytes were
    /// needed but only `got` were available.
    EndOfFile(u64, u64),
    /// The first two bytes of the file are neither `II` nor `MM`, or the
    /// version word is neither the classic nor the BigTIFF magic value.
    BadMagic,
    /// The IFD structure violates the format: unknown entry type,
    /// unrepresentable count, inconsistent lengths, or an invalid string.
    /// Carries the code of the tag the violation concerns, or zero when
    /// the file structure itself rather than one tag is at fault.
    Format(u16),
    /// A tag value could not be narrowed to the requested primitive type.
    ValueConversion,
    /// No codec is registered for this compression tag.
    UnsupportedCompression(u16),
    /// The JPEG color transform is undefined for this photometric
    /// interpretation tag.
    UnsupportedInterpretation(u16),
    /// A decoder library reported malformed compressed data.
    CorruptCodec,
    /// The directory describes no tiles or strips.
    NotTiled,
    /// A tile index lies outside the tile grid.
    OutOfBounds,
}

} // verus!
