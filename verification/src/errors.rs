use vstd::prelude::*;

verus! {

/// Why a frame operation or a peripheral transfer failed. The runtime loop
/// treats every one of these as fatal: the device halts, with no retry and
/// no partial-frame recovery.
#[derive(Clone, Copy, PartialEq, Eq, Structural, Debug)]
pub enum AppError {
    /// A transfer to the pixel surface failed.
    Display,
    /// The block device or file system behind the file store failed.
    Store,
    /// An embedded resource was malformed and could not be decoded.
    Decode,
    /// The monotonic clock was already borrowed when "now" was read.
    ClockBorrow,
}

} // verus!
