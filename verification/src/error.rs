//! The failures that end a command, and what is said of each.

use vstd::prelude::*;

verus! {

/// A failure that ends a command. Every one of them makes the program exit
/// with code 1; none is retried.
#[derive(Clone, Copy, Debug, PartialEq, Eq, Structural)]
pub enum Error {
    /// The version given does not look like a version.
    InvalidVersionFormat,
    /// A page or an archive could not be fetched.
    NetworkFailure,
    /// The version has no directory below the installation root.
    NotInstalled,
    /// The version has a directory, but no binary in it.
    NotCompiled,
    /// The old global pointer could not be removed.
    PointerRemovalDenied,
    /// The new global pointer could not be created.
    PointerCreationDenied,
    /// The archive could not be unpacked.
    ExtractionFailed,
    /// A directory or file below the installation root could not be read,
    /// made or removed.
    StorageFailure,
}

impl Error {
    /// What went wrong, in one sentence.
    pub open spec fn message_spec(self) -> Seq<char> {
        match self {
            Error::InvalidVersionFormat => "invalid version format"@,
            Error::NetworkFailure => "the download failed"@,
            Error::NotInstalled => "the version is not installed"@,
            Error::NotCompiled => "the version is not compiled: its binary is missing"@,
            Error::PointerRemovalDenied => "could not remove the old pointer"@,
            Error::PointerCreationDenied => "could not create the new pointer"@,
            Error::ExtractionFailed => "could not extract the source archive"@,
            Error::StorageFailure => "could not access the installation directory"@,
        }
    }

    /// What the user can do next, up to the version that the command was
    /// given, which is put behind this text where `names_version` holds.
    pub open spec fn advice_spec(self) -> Seq<char> {
        match self {
            Error::InvalidVersionFormat => "use a version such as 8.3.0 or 8.2.15"@,
            Error::NetworkFailure => "check the version and the connection, then try again"@,
            Error::NotInstalled => "run install first: palawija install "@,
            Error::NotCompiled => "build the binary in the directory of version "@,
            Error::PointerRemovalDenied =>
                "retry with elevated privileges: sudo palawija use "@,
            Error::PointerCreationDenied =>
                "retry with elevated privileges: sudo palawija use "@,
            Error::ExtractionFailed => "remove the archive and install again: palawija install "@,
            Error::StorageFailure => "check the permissions of the installation directory"@,
        }
    }

    /// The advice ends with the version that the command was given.
    pub open spec fn names_version(self) -> bool {
        match self {
            Error::NotInstalled => true,
            Error::NotCompiled => true,
            Error::PointerRemovalDenied => true,
            Error::PointerCreationDenied => true,
            Error::ExtractionFailed => true,
            _ => false,
        }
    }

    /// The next step for a user who gave the command the version
    /// `version`.
    pub open spec fn next_step_spec(self, version: Seq<char>) -> Seq<char> {
        if self.names_version() {
            self.advice_spec() + version
        } else {
            self.advice_spec()
        }
    }

    /// What went wrong, in one sentence.
    pub fn message(&self) -> (r: String)
        ensures
            r@ == self.message_spec(),
    {
        match self {
            Error::InvalidVersionFormat => String::from_str("invalid version format"),
            Error::NetworkFailure => String::from_str("the download failed"),
            Error::NotInstalled => String::from_str("the version is not installed"),
            Error::NotCompiled => String::from_str(
                "the version is not compiled: its binary is missing",
            ),
            Error::PointerRemovalDenied => String::from_str("could not remove the old pointer"),
            Error::PointerCreationDenied => String::from_str("could not create the new pointer"),
            Error::ExtractionFailed => String::from_str("could not extract the source archive"),
            Error::StorageFailure => String::from_str(
                "could not access the installation directory",
            ),
        }
    }

    /// The next step for a user who gave the command the version
    /// `version`.
    pub fn next_step(&self, version: &str) -> (r: String)
        ensures
            r@ == self.next_step_spec(version@),
    {
        match self {
            Error::InvalidVersionFormat => String::from_str(
                "use a version such as 8.3.0 or 8.2.15",
            ),
            Error::NetworkFailure => String::from_str(
                "check the version and the connection, then try again",
            ),
            Error::NotInstalled => String::from_str("run install first: palawija install ").concat(
                version,
            ),
            Error::NotCompiled => String::from_str(
                "build the binary in the directory of version ",
            ).concat(version),
            Error::PointerRemovalDenied => String::from_str(
                "retry with elevated privileges: sudo palawija use ",
            ).concat(version),
            Error::PointerCreationDenied => String::from_str(
                "retry with elevated privileges: sudo palawija use ",
            ).concat(version),
            Error::ExtractionFailed => String::from_str(
                "remove the archive and install again: palawija install ",
            ).concat(version),
            Error::StorageFailure => String::from_str(
                "check the permissions of the installation directory",
            ),
        }
    }
}

/// The code with which the program exits: 0 after a command that was carried
/// out, 1 after any failure.
pub fn exit_code<T>(outcome: &Result<T, Error>) -> (r: u8)
    ensures
        r == (if outcome is Ok { 0u8 } else { 1u8 }),
{
    match outcome {
        Ok(_) => 0,
        Err(_) => 1,
    }
}

/// A failed removal of the old pointer and a failed creation of the new one
/// are reported in different words.
pub proof fn lemma_pointer_failures_told_apart()
    ensures
        Error::PointerRemovalDenied.message_spec() != Error::PointerCreationDenied.message_spec(),
{
    reveal_strlit("could not remove the old pointer");
    reveal_strlit("could not create the new pointer");
    // the two texts part at their eleventh character
    assert("could not remove the old pointer"@[10] == 'r');
}

} // verus!
