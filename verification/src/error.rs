//! The failure taxonomy of the class-file decoder.

use vstd::prelude::*;

verus! {

/// A failure raised while decoding a class file or resolving against its
/// constant pool.
///
/// Truncation and index failures abort a decode; an unrecognized constant
/// pool tag or attribute name is not an error and decoding continues.
#[derive(Clone, Copy, Debug, PartialEq, Eq, Structural)]
pub enum DecodeError {
    /// Fewer bytes were available than a read requested.
    IoTruncated,
    /// Bytes that should have been UTF-8 text were not valid UTF-8.
    InvalidText,
    /// A constant pool index was zero or exceeded the pool size.
    InvalidPoolIndex,
    /// Resolution reached an entry kind that has no defined textual form.
    UnresolvedEntryKind,
    /// Resolution followed more indirections than the pool has entries,
    /// which only a self-referential pool can force.
    ResolutionTooDeep,
}

} // verus!
