use vstd::prelude::*;
use vstd::string::StringExecFns;

verus! {

/// The error taxonomy of the engine.
///
/// `InvalidCredentials`, `Forbidden` and `NotFound` classify transport
/// statuses; `Unknown` carries an engine-detected constraint violation
/// (wrong option count, a missing required field, an oracle that never
/// confirmed an answer); `Other` is an uncategorized transport or parse
/// failure.  Each variant carries a plain detail message.
#[derive(Debug)]
pub enum MatetechError {
    InvalidCredentials(String),
    Forbidden(String),
    NotFound(String),
    Unknown(String),
    Other(String),
}

/// Mathematical image of a [`MatetechError`].
#[verifier::ext_equal]
pub ghost enum ErrorV {
    InvalidCredentials(Seq<char>),
    Forbidden(Seq<char>),
    NotFound(Seq<char>),
    Unknown(Seq<char>),
    Other(Seq<char>),
}

impl View for MatetechError {
    type V = ErrorV;

    open spec fn view(&self) -> ErrorV {
        match self {
            MatetechError::InvalidCredentials(s) => ErrorV::InvalidCredentials(s@),
            MatetechError::Forbidden(s) => ErrorV::Forbidden(s@),
            MatetechError::NotFound(s) => ErrorV::NotFound(s@),
            MatetechError::Unknown(s) => ErrorV::Unknown(s@),
            MatetechError::Other(s) => ErrorV::Other(s@),
        }
    }
}

impl Clone for MatetechError {
    fn clone(&self) -> (r: Self)
        ensures
            r@ == self@,
    {
        match self {
            MatetechError::InvalidCredentials(s) => MatetechError::InvalidCredentials(s.clone()),
            MatetechError::Forbidden(s) => MatetechError::Forbidden(s.clone()),
            MatetechError::NotFound(s) => MatetechError::NotFound(s.clone()),
            MatetechError::Unknown(s) => MatetechError::Unknown(s.clone()),
            MatetechError::Other(s) => MatetechError::Other(s.clone()),
        }
    }
}

/// The one-line rendering of an error: a category prefix and the detail,
/// except for `Other`, which passes its message through unchanged.
pub open spec fn error_message_view(e: ErrorV) -> Seq<char> {
    match e {
        ErrorV::InvalidCredentials(s) => "invalid credentials: "@ + s,
        ErrorV::Forbidden(s) => "forbidden: "@ + s,
        ErrorV::NotFound(s) => "not found: "@ + s,
        ErrorV::Unknown(s) => "unknown error: "@ + s,
        ErrorV::Other(s) => s,
    }
}

impl MatetechError {
    /// Renders the error as a single line.
    pub fn message(&self) -> (r: String)
        ensures
            r@ == error_message_view(self@),
    {
        match self {
            MatetechError::InvalidCredentials(s) => {
                String::from_str("invalid credentials: ").concat(s.as_str())
            },
            MatetechError::Forbidden(s) => String::from_str("forbidden: ").concat(s.as_str()),
            MatetechError::NotFound(s) => String::from_str("not found: ").concat(s.as_str()),
            MatetechError::Unknown(s) => String::from_str("unknown error: ").concat(s.as_str()),
            MatetechError::Other(s) => s.clone(),
        }
    }
}

/// Classifies a failed (non-2xx) transport status on any request of a
/// session: 401 and 403 deny access, 404 means the attempt or question
/// does not exist, and everything else is an uncategorized failure.
pub fn classify_status(status: u16, detail: String) -> (r: MatetechError)
    ensures
        (status == 401 || status == 403) ==> r@ == ErrorV::Forbidden(detail@),
        status == 404 ==> r@ == ErrorV::NotFound(detail@),
        !(status == 401 || status == 403 || status == 404) ==> r@ == ErrorV::Other(detail@),
{
    if status == 401 || status == 403 {
        MatetechError::Forbidden(detail)
    } else if status == 404 {
        MatetechError::NotFound(detail)
    } else {
        MatetechError::Other(detail)
    }
}

/// Classifies a failed (non-2xx) status on the login endpoint, where 401
/// and 422 mean the credentials themselves were rejected; any other status
/// is classified as on the other requests.
pub fn classify_login_status(status: u16, detail: String) -> (r: MatetechError)
    ensures
        (status == 401 || status == 422) ==> r@ == ErrorV::InvalidCredentials(detail@),
        status == 403 ==> r@ == ErrorV::Forbidden(detail@),
        status == 404 ==> r@ == ErrorV::NotFound(detail@),
        !(status == 401 || status == 422 || status == 403 || status == 404) ==> r@
            == ErrorV::Other(detail@),
{
    if status == 401 || status == 422 {
        MatetechError::InvalidCredentials(detail)
    } else {
        classify_status(status, detail)
    }
}

} // verus!
