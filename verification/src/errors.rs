use vstd::prelude::*;

verus! {

/// Failure kinds surfaced at component boundaries.
#[derive(Clone, Copy, Debug, PartialEq, Eq, Structural)]
pub enum NormError {
    /// A parameter was invalid for the requested operation.
    ConfigError,
    /// The compressed input or its headers were malformed or corrupt.
    DecodeError,
    /// The channel layout is unsupported for the requested operation.
    UnsupportedChannelLayout,
}

/// Failure of a byte-stream seek.
#[derive(Clone, Copy, Debug, PartialEq, Eq, Structural)]
pub enum StreamError {
    /// The computed absolute target offset was negative.
    InvalidOffset,
}

} // verus!
