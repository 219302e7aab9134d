use vstd::prelude::*;

verus! {

/// Why a release search or an asset-list read failed.
#[derive(Clone, Copy, Debug, PartialEq, Eq, Structural)]
pub enum FindError {
    /// The transport could not complete a request.
    TransportError,
    /// A response body was not a JSON array.
    MalformedResponse,
    /// A record that the search was processing lacked a field it needed.
    MissingField,
}

} // verus!
