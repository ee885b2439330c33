use vstd::prelude::*;

verus! {

/// Everything that can go wrong while loading, building or updating a
/// site. Failures of outside collaborators are carried as their
/// rendered messages.
#[derive(Debug, Clone)]
pub enum DdError {
    /// No configuration file at the project root.
    ConfigNotFound,
    /// The configuration file exists but cannot be parsed.
    InvalidConfig(String),
    /// A file could not be read.
    Read { path: String, error: String },
    /// A file could not be written or copied.
    Io(String),
    /// A configuration file under an extension no reader handles.
    UnsupportedFileFormat(String),
    /// A page path that does not fit the page-path grammar.
    InvalidPagePath { path: String },
    /// A configuration element whose payload shape does not match its key.
    InvalidElement { key: String },
    /// A broken internal assumption; never expected in correct operation.
    Internal(String),
}

pub type DdResult<T> = Result<T, DdError>;

impl DdError {
    /// Wrap a message as an internal error.
    pub fn internal(msg: String) -> (r: Self)
        ensures
            r matches DdError::Internal(m) && m@ == msg@,
    {
        DdError::Internal(msg)
    }
}

} // verus!
