//! The engine's error taxonomy.  Every failure is detected synchronously
//! and deterministically; pagination edge conditions (zero-size viewport,
//! empty content) are valid states, not errors.

use vstd::prelude::*;

verus! {

/// What can go wrong when configuring or driving the engine.
#[derive(Clone, Copy, Debug, PartialEq, Eq, Structural)]
pub enum UiError {
    /// Registering a name that is already taken.
    DuplicateName,
    /// Dispatching to a name no widget carries.
    UnknownWidget,
    /// Dispatching a kind-specific operation to a widget of another kind.
    TypeMismatch,
    /// A table row or column index past the current bound.
    IndexOutOfRange,
    /// A row whose cell count differs from the table's column count.
    WidthMismatch,
}

} // verus!
