//! Application-level error taxonomy.  Rendering an error as an HTTP
//! response belongs to the unverified web layer; here each error carries
//! its message and knows the status code it maps to.

use vstd::prelude::*;

verus! {

/// Errors surfaced by the application layer.
#[derive(Debug)]
pub enum AppError {
    InternalServerError(String),
    BadRequest(String),
    NotFound(String),
    ConfigError(String),
}

impl AppError {
    /// The message text carried by this error.
    pub open spec fn spec_message(&self) -> Seq<char> {
        match *self {
            AppError::InternalServerError(ref m) => m@,
            AppError::BadRequest(ref m) => m@,
            AppError::NotFound(ref m) => m@,
            AppError::ConfigError(ref m) => m@,
        }
    }

    /// The HTTP status code this error maps to.
    pub open spec fn spec_status_code(&self) -> u16 {
        match *self {
            AppError::InternalServerError(_) => 500,
            AppError::BadRequest(_) => 400,
            AppError::NotFound(_) => 404,
            AppError::ConfigError(_) => 500,
        }
    }

    /// Borrows the message text carried by this error.
    pub fn message(&self) -> (m: &String)
        ensures
            m@ == self.spec_message(),
    {
        match self {
            AppError::InternalServerError(m) => m,
            AppError::BadRequest(m) => m,
            AppError::NotFound(m) => m,
            AppError::ConfigError(m) => m,
        }
    }

    /// The HTTP status code this error maps to: bad requests are 400,
    /// missing resources 404, everything else 500.
    pub fn status_code(&self) -> (c: u16)
        ensures
            c == self.spec_status_code(),
    {
        match self {
            AppError::InternalServerError(_) => 500,
            AppError::BadRequest(_) => 400,
            AppError::NotFound(_) => 404,
            AppError::ConfigError(_) => 500,
        }
    }
}

/// Convenient alias for results whose error is an [`AppError`].
pub type AppResult<T> = Result<T, AppError>;

} // verus!
