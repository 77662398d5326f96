use vstd::prelude::*;

verus! {

/// Why a request was refused before any filesystem access.
#[derive(Clone, Copy, Debug, PartialEq, Eq, Structural)]
pub enum ProtocolError {
    /// The request bytes do not fit the grammar: the `GET ` prefix or the
    /// final CR LF is missing, or the path is not plain ASCII text.
    MalformedRequest,
    /// The request path is not absolute, or one of its components is not a
    /// plain name (a parent reference, a current reference, or empty).
    IllegalPath,
}

} // verus!
