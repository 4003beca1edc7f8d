use vstd::prelude::*;

verus! {

/// The kinds of failure that the request layer maps to status codes.
#[derive(Clone, Copy, Debug, PartialEq, Eq, Structural)]
pub enum ErrorKind {
    ValidationFailed,
    Unauthenticated,
    Forbidden,
    NotFound,
    Conflict,
    Internal,
}

impl ErrorKind {
    pub open spec fn spec_status(self) -> u16 {
        match self {
            ErrorKind::ValidationFailed => 422,
            ErrorKind::Unauthenticated => 401,
            ErrorKind::Forbidden => 403,
            ErrorKind::NotFound => 404,
            ErrorKind::Conflict => 409,
            ErrorKind::Internal => 500,
        }
    }

    /// The HTTP status code of this kind.
    pub fn status_code(&self) -> (r: u16)
        ensures
            r == self.spec_status(),
    {
        match self {
            ErrorKind::ValidationFailed => 422,
            ErrorKind::Unauthenticated => 401,
            ErrorKind::Forbidden => 403,
            ErrorKind::NotFound => 404,
            ErrorKind::Conflict => 409,
            ErrorKind::Internal => 500,
        }
    }
}

/// A typed failure: its kind, an application code and a short message.
#[derive(Debug)]
pub struct AppError {
    pub kind: ErrorKind,
    pub code: u16,
    pub message: String,
}

/// The body sent to a client for a failure.
#[derive(Debug)]
pub struct AppErrorJson {
    pub code: u16,
    pub message: String,
}

impl AppError {
    pub fn new(kind: ErrorKind, code: u16, message: &str) -> (e: AppError)
        ensures
            e.kind == kind,
            e.code == code,
            e.message@ == message@,
    {
        AppError { kind, code, message: message.to_owned() }
    }

    /// An internal failure. Its message is the same for every fault, so that
    /// nothing of the fault's own detail reaches a client.
    pub fn from_err() -> (e: AppError)
        ensures
            e.kind == ErrorKind::Internal,
            e.code == 500,
            e.message@ == "internal error"@,
    {
        AppError::new(ErrorKind::Internal, 500, "internal error")
    }

    pub fn status_code(&self) -> (r: u16)
        ensures
            r == self.kind.spec_status(),
    {
        self.kind.status_code()
    }

    pub fn to_json(&self) -> (j: AppErrorJson)
        ensures
            j.code == self.code,
            j.message@ == self.message@,
    {
        AppErrorJson { code: self.code, message: self.message.clone() }
    }
}

/// Whether a result failed with the given kind.
pub open spec fn fails_with<T>(r: Result<T, AppError>, kind: ErrorKind) -> bool {
    r is Err && r->Err_0.kind == kind
}

} // verus!
