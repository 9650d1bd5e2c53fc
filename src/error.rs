use vstd::prelude::*;

verus! {

/// The errors of decoding and encoding a save file, and of the edits on it
/// that can fail.
#[derive(Debug, PartialEq, Eq)]
pub enum SaveError {
    /// The magic number at the start of the file is not the expected one.
    UnrecognizedFormat,
    /// The file's version (first) is not the supported one (second).
    UnsupportedVersion(u32, u32),
    /// A field did not hold the value that its layout asserts.
    AssertionError(String),
    /// The buffer is shorter than the record it should hold.
    UnexpectedEof,
    /// A crafted accessory could not be stored: the craft inventory is full.
    MashaInventoryFull,
}

} // verus!
