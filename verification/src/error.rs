//! The run-wide error taxonomy.

use vstd::prelude::*;

verus! {

/// Everything that can end, or be reported during, a run.
///
/// `E` is the error type of the layout generator in use.  Command-handling
/// failures (`GeneratorError` from a user command) are absorbed at the
/// session boundary and reported without stopping the run; every other kind
/// is fatal and becomes the run's result.
#[derive(Debug)]
pub enum Error<E> {
    /// The transport connection could not be established.
    ConnectFailed,
    /// A required capability could not be bound.
    BindFailed,
    /// Another client already holds the generator's namespace; the claimed
    /// namespace string is carried for the report.
    NamespaceInUse(String),
    /// The generator itself failed.
    GeneratorError(E),
    /// The generator returned a placement sequence of the wrong length.
    ContractViolation,
    /// The connection or protocol failed during dispatch.
    TransportFault,
}

impl<E> Error<E> {
    /// What `describe` returns, per variant.
    pub open spec fn describe_spec(&self) -> Seq<char> {
        match self {
            Error::ConnectFailed => "cannot establish the transport connection"@,
            Error::BindFailed => "a required capability could not be bound"@,
            Error::NamespaceInUse(ns) => {
                "the requested namespace \""@ + ns@ + "\" is already in use"@
            },
            Error::GeneratorError(_) => "layout generator error"@,
            Error::ContractViolation => {
                "layout generator returned a wrong number of placements"@
            },
            Error::TransportFault => "transport failure during dispatch"@,
        }
    }

    /// A short human-readable account of the error.
    pub fn describe(&self) -> (r: String)
        ensures
            r@ == self.describe_spec(),
    {
        match self {
            Error::ConnectFailed => String::from_str("cannot establish the transport connection"),
            Error::BindFailed => String::from_str("a required capability could not be bound"),
            Error::NamespaceInUse(ns) => {
                let mut m = String::from_str("the requested namespace \"");
                m.append(ns.as_str());
                m.append("\" is already in use");
                m
            },
            Error::GeneratorError(_) => String::from_str("layout generator error"),
            Error::ContractViolation => {
                String::from_str("layout generator returned a wrong number of placements")
            },
            Error::TransportFault => String::from_str("transport failure during dispatch"),
        }
    }

}

} // verus!
