//! What can go wrong while a section is listed.

use vstd::prelude::*;

verus! {

/// Why the registry could not name the latest version of a package.
#[derive(Debug, Clone, PartialEq, Eq)]
pub struct FetchError {
    pub message: String,
}

/// `FetchError` as plain text.
pub struct FetchFailure {
    pub message: Seq<char>,
}

impl View for FetchError {
    type V = FetchFailure;

    open spec fn view(&self) -> FetchFailure {
        FetchFailure { message: self.message@ }
    }
}

/// Why a section could not be listed.
#[derive(Debug, Clone, PartialEq, Eq)]
pub enum ListError {
    /// The manifest has no table under the section's name.
    SectionMissing(String),
    /// The dependency (first) of the section (second) is a table without any
    /// of `version`, `git` and `path`.
    VersionMissing(String, String),
    /// The registry lookup for `package` failed.
    FetchVersionError { package: String, cause: FetchError },
}

/// `ListError` as plain text.
pub enum ListFailure {
    SectionMissing(Seq<char>),
    VersionMissing(Seq<char>, Seq<char>),
    FetchVersionError { package: Seq<char>, cause: FetchFailure },
}

impl View for ListError {
    type V = ListFailure;

    open spec fn view(&self) -> ListFailure {
        match self {
            ListError::SectionMissing(section) => ListFailure::SectionMissing(section@),
            ListError::VersionMissing(name, section) => ListFailure::VersionMissing(
                name@,
                section@,
            ),
            ListError::FetchVersionError { package, cause } => ListFailure::FetchVersionError {
                package: package@,
                cause: cause@,
            },
        }
    }
}

} // verus!
