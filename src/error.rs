use vstd::prelude::*;

verus! {

/// Every way in which resolving or decoding a configuration can fail.
#[derive(Clone, Debug, PartialEq, Eq, Structural)]
pub enum ConfigError {
    /// A scalar without the `${file(` prefix where a file reference was expected.
    NotAReference,
    /// A scalar with the `${file(` prefix but without the closing `)}`.
    MalformedReference,
    /// A referenced path names a directory.
    PathIsDirectory,
    /// A referenced path does not exist.
    PathNotFound,
    /// A document does not have the expected shape.
    DecodeError,
    /// A handler locator without a `.`.
    InvalidHandlerFormat,
    /// An HTTP method outside GET, POST, PUT, PATCH and DELETE.
    UnknownHttpMethod,
}

} // verus!
