use vstd::prelude::*;

verus! {

/// The typed outcomes a protocol operation can fail with. Malformed or
/// device-influenced input is always surfaced as one of these, never as a
/// panic.
#[derive(Clone, Copy, Debug, PartialEq, Eq, Structural)]
pub enum TpmError {
    /// Fewer bytes remained than a structured value needs, or a closed
    /// enumeration met a code outside its table.
    Decode,
    /// A caller-supplied value violates a precondition that can be checked
    /// locally, before any transport exchange.
    InputParameter,
    /// A syntactically valid response that violates a protocol-level
    /// invariant this library depends on.
    StructuralFormat,
    /// The TPM reported failure; carries its response code verbatim.
    Command(u32),
    /// The underlying transport exchange failed.
    Transport,
}

/// A failure of the underlying transport exchange, opaque to this
/// library beyond the fact that it happened.
#[derive(Clone, Copy, Debug, PartialEq, Eq, Structural)]
pub struct TransportError {}

impl TransportError {
    /// A transport failure report.
    pub fn new() -> (r: TransportError)
        ensures
            r == (TransportError {}),
    {
        TransportError {}
    }
}

} // verus!
