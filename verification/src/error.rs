use vstd::prelude::*;

verus! {

/// The failure modes of the engine and of the counter maps.
#[derive(Clone, Copy, Debug, PartialEq, Eq, Structural)]
pub enum MatmulError {
    /// A matrix was declared with dimensions that disagree with its buffer length.
    ShapeMismatch,
    /// `multiply` was handed operands whose inner dimensions differ.
    IncompatibleShapes,
    /// The dot-product kernel was handed vectors of different lengths.
    DimensionMismatch,
    /// A worker's inbound queue rejected a task; the whole call is abandoned.
    TaskDeliveryFailure,
    /// A reply channel was closed before its reply arrived; the whole call is abandoned.
    ReplyLost,
    /// A counter was addressed under a name that was never registered.
    UnknownMetric,
}

} // verus!
