//! What an operation can refuse.
use vstd::prelude::*;

verus! {

/// Why an operation was refused. A refused operation records no command.
#[derive(Clone, Copy, Debug, PartialEq, Eq, Structural)]
pub enum Error {
    /// A write or a view reaches past the end of its buffer or image.
    OutOfBounds,
    /// Two sizes that must agree differ.
    SizeMismatch,
    /// The declared bindings are not the ones the shader's entry point expects.
    LayoutMismatch,
    /// The device reported that mapping a staging buffer failed.
    MapFailed,
}

} // verus!
