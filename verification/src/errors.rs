//! Errors that building a request can surface. Transport failures are owned
//! by the external client and never pass through this crate.

use vstd::prelude::*;

verus! {

/// Why a request could not be built.
#[derive(Clone, Copy, PartialEq, Eq, Structural, Debug)]
pub enum MatrixError {
    /// A body value could not be turned into its wire text. The body forms
    /// of this crate always serialize, so its own build step never returns
    /// this; it serves callers whose own serializer fails while preparing a
    /// JSON-text body.
    Serialization,
    /// The assembled URL is not a valid absolute URL.
    UrlParse,
}

impl MatrixError {
    /// A short description of the error.
    pub fn describe(&self) -> (r: &'static str)
        ensures
            *self is Serialization ==> r@ == "the request body could not be serialized"@,
            *self is UrlParse ==> r@ == "the assembled URL is not a valid absolute URL"@,
    {
        match self {
            MatrixError::Serialization => "the request body could not be serialized",
            MatrixError::UrlParse => "the assembled URL is not a valid absolute URL",
        }
    }
}

} // verus!
