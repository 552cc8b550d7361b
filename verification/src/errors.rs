use vstd::prelude::*;

verus! {

/// Classifies a request-path failure at the HTTP boundary: a missing or
/// unusable session identity, versus any other bad request.
#[derive(Debug, Clone, PartialEq, Eq, Structural)]
pub enum ClipErrorType {
    InvalidUri,
    Error,
}

/// A request-path error carrying an optional human-readable message.
#[derive(Debug)]
pub struct ClipError {
    pub message: Option<String>,
    pub err_type: ClipErrorType,
}

impl ClipError {
    pub fn _message(&self) {
        match &self.message {
            Some(msg) => msg.clone(),
            None => String::new(),
        };
    }

    pub fn set_type(&mut self, err_type: ClipErrorType)
        ensures
            final(self).err_type == err_type,
            final(self).message == old(self).message,
    {
        self.err_type = err_type;
    }

    /// The HTTP status this error maps to: 404 for a missing session
    /// identity, 400 for any other request error.
    pub fn status_code(&self) -> (code: u16)
        ensures
            self.err_type is InvalidUri ==> code == 404,
            self.err_type is Error ==> code == 400,
    {
        match self.err_type {
            ClipErrorType::InvalidUri => 404,
            ClipErrorType::Error => 400,
        }
    }
}

impl From<String> for ClipError {
    fn from(err: String) -> (r: ClipError) {
        ClipError { message: Some(err), err_type: ClipErrorType::Error }
    }
}

impl vstd::std_specs::convert::FromSpecImpl<String> for ClipError {
    open spec fn obeys_from_spec() -> bool {
        true
    }

    open spec fn from_spec(err: String) -> ClipError {
        ClipError { message: Some(err), err_type: ClipErrorType::Error }
    }
}

/// Why a merge request was refused, or its encoder run rejected.
#[derive(Debug, Clone, PartialEq, Eq, Structural)]
pub enum MergeError {
    /// The request named no clips at all.
    EmptyRequest,
    /// Some requested clip id did not resolve to a stored clip file.
    ClipCountMismatch,
    /// The encoder exited unsuccessfully or produced an empty output file.
    EncodeFailure,
    /// The playback payload was not a well-formed clip request.
    MalformedRequest,
}

} // verus!
