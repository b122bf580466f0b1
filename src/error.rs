//! The ways a transcoding can fail.

use vstd::prelude::*;

verus! {

/// Why an image cannot be decoded or converted.
#[derive(Clone, Copy, Debug, PartialEq, Eq, Structural)]
pub enum Error {
    /// The buffer ends before the header, a record or a section's data.
    TooShort,
    /// The leading magic number is neither of the two recognized ones.
    UnknownMagic(u32),
    /// A record's declared size disagrees with the layout it must hold.
    SizeMismatch,
    /// The record at this index carries an unrecognized tag.
    UnrecognizedSegment(usize, u32),
    /// A thread state record carries an unrecognized flavor and count.
    UnrecognizedThreadState(u32, u32),
    /// The image is dynamically linked.
    DynamicUnsupported,
}

} // verus!
