//! Core model of a tiling window manager: an arena-based container tree,
//! a per-window state machine, a pending-sync accumulator, and the
//! event pipeline that turns pointer-move events into tree and focus
//! mutations. Platform bindings (window enumeration, hit testing, raw
//! positioning calls) live outside this crate; the functions here take
//! the values such a binding reports and return the mutations to apply.

use vstd::prelude::*;

pub mod geometry;
pub mod pending;
pub mod tree;
pub mod wm_state;
pub mod events;

verus! {

/// Failure taxonomy for event processing. A failed operation leaves the
/// window-manager state exactly as it was.
#[derive(Clone, Copy, Debug, PartialEq, Eq, Structural)]
pub enum WmError {
    /// An expected container or handle is absent from the index.
    LookupFailure,
    /// A platform query could not be answered by the platform binding.
    PlatformCallFailure,
    /// An attempted mutation would break acyclicity or the one-parent rule.
    InvariantViolation,
}

} // verus!
