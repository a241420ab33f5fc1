//! The ways in which a run configuration can be refused.
use vstd::prelude::*;

verus! {

/// A configuration that cannot be run. Every variant is fatal and is
/// reported before any source is searched.
#[derive(Debug)]
pub enum ConfigError {
    /// An option token that no rule recognises; holds the option's name.
    UnknownOption(String),
    /// A short option that needs a value stood last; holds the option.
    MissingValue(String),
    /// No pattern was given, neither explicitly nor as the first operand.
    MissingPattern,
    /// The matcher refused the composite expression.
    InvalidExpression(regex::Error),
}

} // verus!
