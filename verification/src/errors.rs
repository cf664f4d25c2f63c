//! The error taxonomy of the loader.
//!
//! Every failure the loader can report happens strictly before the firmware's
//! boot services are terminated, so each of these is recoverable from the
//! surrounding system's point of view: it may retry with another image or
//! report the failure to an operator.

use vstd::prelude::*;

verus! {

/// What exactly the identity check found wrong with the image.
#[derive(Clone, Copy, Debug, PartialEq, Eq, Structural)]
pub enum ValidationFault {
    /// The image's leading identity tag is not the expected byte sequence:
    /// the file is not of the expected format or target.
    InvalidMagic,
}

/// Why an image could not be read, loaded, or started.
#[derive(Clone, Copy, Debug, PartialEq, Eq, Structural)]
pub enum BootError {
    /// A structural read was truncated or malformed: fewer bytes than a
    /// fixed-size record needs, or a segment table that does not fit the
    /// stream.
    FormatError,
    /// The image failed validation; the payload says which check failed.
    ValidationError(ValidationFault),
    /// No descriptor in the segment table carries the loadable tag, so the
    /// image cannot be run.
    NoLoadableSegments,
    /// Loadable segments exist, but their memory sizes sum to zero.
    EmptyLoadSize,
    /// The environment could not supply the physical pages for the region.
    AllocationError,
    /// A segment's data extends past the end of the byte stream; loading it
    /// would leave partial data in place with no way to detect it later.
    TruncatedSegment,
    /// The environment refused to terminate its boot services, for example
    /// because the supplied memory-map snapshot was stale.
    TerminationError,
}

} // verus!
