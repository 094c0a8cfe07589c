//! The parsed file as a whole: its byte order and its chain of
//! directories.

use vstd::prelude::*;

use crate::cursor::Endianness;
use crate::ifd::ImageFileDirectory;

verus! {

/// A parsed TIFF file: the byte order read from its header and the
/// directories of its IFD chain, in order.
#[derive(Debug)]
pub struct TIFF {
    ifds: Vec<ImageFileDirectory>,
    endianness: Endianness,
}

impl TIFF {
    /// The directories of the file, in chain order.
    pub closed spec fn ifds_view(&self) -> Seq<ImageFileDirectory> {
        self.ifds@
    }

    /// The byte order of the file.
    pub closed spec fn endian(&self) -> Endianness {
        self.endianness
    }

    /// Assemble a file from directories already read and the byte order
    /// of their source.
    pub fn new(ifds: Vec<ImageFileDirectory>, endianness: Endianness) -> (r: TIFF)
        ensures
            r.ifds_view() == ifds@,
            r.endian() == endianness,
    {
        TIFF { ifds, endianness }
    }

    /// The directories of the file, in chain order.
    pub fn ifds(&self) -> (r: &Vec<ImageFileDirectory>)
        ensures
            r@ == self.ifds_view(),
    {
        &self.ifds
    }

    /// The byte order of the file.
    pub fn endianness(&self) -> (r: Endianness)
        ensures
            r == self.endian(),
    {
        self.endianness
    }
}

} // verus!
