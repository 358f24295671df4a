//! Errors raised while a catalog or a session is being set up.

use vstd::prelude::*;

verus! {

/// Why a piece of configuration was turned down.
#[derive(Clone, Copy, Debug, PartialEq, Eq, Structural)]
pub enum ConfigError {
    /// An interval whose end lies before its start.
    MalformedInterval,
    /// A message that applies to no role at all.
    EmptyRoles,
    /// A minimum interval between two messages that is zero or negative.
    NonPositiveInterval,
}

} // verus!
