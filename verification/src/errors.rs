//! The error taxonomy of the library: every failure of loading, saving,
//! conversion or duplicate detection is one of these typed values; no
//! operation of the library panics.

use vstd::prelude::*;

verus! {

/// A failure of loading, saving or key conversion.
#[derive(Clone, Debug, PartialEq, Eq)]
pub enum ConfigError {
    /// The config path cannot be resolved because no home directory is known.
    NoHomeDirectory,
    /// The config file could not be read or decoded; carries a description.
    ParseError(String),
    /// A key name or native key code has no mapping; carries the offending name.
    UnsupportedKey(String),
    /// Two active bindings collide on (modifiers, key); carries the
    /// human-readable combination string.
    DuplicateBinding(String),
    /// A filesystem failure; carries a description.
    IoError(String),
}

impl ConfigError {
    /// The combination string of a duplicate-binding error, or `None`.
    pub fn duplicate_combination(&self) -> (r: Option<&String>)
        ensures
            match r {
                Some(s) => self matches ConfigError::DuplicateBinding(c) && s@ == c@,
                None => !(self matches ConfigError::DuplicateBinding(_)),
            },
    {
        match self {
            ConfigError::DuplicateBinding(c) => Some(c),
            _ => None,
        }
    }
}

} // verus!
