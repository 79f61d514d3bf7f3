use vstd::prelude::*;

verus! {

/// The single error type threaded through every encode and decode operation.
#[derive(Debug, Clone, PartialEq, Eq)]
pub enum Error {
    /// The source ran out before a required number of bytes was available.
    EndOfStream,
    /// A leading byte outside every known tag range.
    InvalidTag,
    /// The decoded shape does not fit what the caller expected.
    TypeMismatch,
    /// A cursor was driven a different number of times than its declared count.
    ArityViolation,
    /// A length or count beyond what the widest form of the format holds.
    LengthOverflow,
    /// A sequence or map whose length is not known up front.
    SizeHint,
    /// The sink or source callback reported a failure.
    Io,
    /// An error raised while constructing a value, passed through unchanged.
    Custom(String),
}

} // verus!
