//! The failures an install can end in.

use vstd::prelude::*;

verus! {

/// Why an install was given up.
///
/// Every failure is fatal to the install it occurs in: nothing is retried and
/// nothing is swallowed.
#[derive(Clone, Copy, Debug, PartialEq, Eq, Structural)]
pub enum InstallError {
    /// The remote path does not exist.
    NotFound,
    /// The remote service answered with a status outside the success range.
    RemoteError { status: u16 },
    /// The connection to the remote service could not be made or broke down.
    TransportError,
    /// A response did not have the expected shape, or arrived when no such
    /// response was awaited.
    ProtocolError,
    /// A package specifier is not of the form `[@]author/name`.
    InvalidSpecifier,
    /// The manifest file is missing where one is needed, or cannot be read.
    ManifestError,
    /// The local file system refused to create a directory or write a file.
    LocalIo,
}

impl InstallError {
    /// A one-line description fit for the user.
    pub fn message(&self) -> (text: &'static str)
        ensures
            text@ == Self::message_of(*self),
    {
        match self {
            InstallError::NotFound => "the package or path was not found in the registry",
            InstallError::RemoteError { .. } => "the registry answered with an error status",
            InstallError::TransportError => "could not connect to the registry",
            InstallError::ProtocolError => "the registry sent an unexpected response",
            InstallError::InvalidSpecifier =>
                "invalid package format, use @username/package-name or username/package-name",
            InstallError::ManifestError => "msc.toml is missing or cannot be read",
            InstallError::LocalIo => "could not write to the local package directory",
        }
    }

    /// The text that [`InstallError::message`] gives for each failure.
    pub open spec fn message_of(error: InstallError) -> Seq<char> {
        match error {
            InstallError::NotFound => "the package or path was not found in the registry"@,
            InstallError::RemoteError { .. } => "the registry answered with an error status"@,
            InstallError::TransportError => "could not connect to the registry"@,
            InstallError::ProtocolError => "the registry sent an unexpected response"@,
            InstallError::InvalidSpecifier =>
                "invalid package format, use @username/package-name or username/package-name"@,
            InstallError::ManifestError => "msc.toml is missing or cannot be read"@,
            InstallError::LocalIo => "could not write to the local package directory"@,
        }
    }
}

} // verus!
