//! Errors that can occur while interpreting the bridge's responses.

use crate::response::Failure;
use vstd::prelude::*;

verus! {

/// An error raised by the response interpreter.
///
/// The kinds are deliberately distinct and never collapsed into one another:
/// a malformed response is a [`Error::Parse`], a well-formed response in
/// which the bridge rejected the operation is a [`Error::Response`], and a
/// creation or registration response that lacks the identifier it owes is a
/// [`Error::GetCreatedId`] or [`Error::GetUsername`].
#[derive(Debug, PartialEq)]
pub enum Error {
    /// The response does not have the shape the endpoint's decoder expects.
    Parse,
    /// The bridge reported an error entry; its data is attached.
    Response(Failure),
    /// A registration response held no entry with the new user's name.
    GetUsername,
    /// A creation response held no entry with the new resource's identifier.
    GetCreatedId,
}

impl Error {
    /// A short human-readable description of the error.
    pub fn description(&self) -> (r: String)
        ensures
            self is Response ==> r@ == self->Response_0@.description,
    {
        match self {
            Error::Parse => "failed to parse response".to_owned(),
            Error::Response(f) => f.description.clone(),
            Error::GetUsername => "failed to get the username".to_owned(),
            Error::GetCreatedId => "failed to get the identifier of the created resource"
                .to_owned(),
        }
    }
}

} // verus!
