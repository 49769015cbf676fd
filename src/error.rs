use vstd::prelude::*;

verus! {

/// The failure kinds that the library's operations report.
#[derive(Clone, Copy, Debug, PartialEq, Eq, Structural)]
pub enum TokenError {
    /// A payload lacks a required field or has a field of the wrong shape.
    MalformedConfig,
    /// A field is well-typed but breaks a domain rule.
    InvalidValue,
    /// A payment address failed to decode.
    InvalidAddress,
    /// A ledger response could not be interpreted.
    ParseError,
}

} // verus!
