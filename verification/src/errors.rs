use vstd::prelude::*;

verus! {

/// The error taxonomy of the census pipeline.
///
/// `UnknownProfile` and `UnclassifiedPattern` arise inside the library;
/// `DirectoryReadError` and `FileReadError` describe filesystem failures
/// and are constructed by the surrounding program, which owns all I/O.
pub enum CensusError {
    /// The profile selector matches no catalog entry; fatal, reported
    /// before any traversal starts.
    UnknownProfile,
    /// A raw pattern in the active catalog resolves to no semantic
    /// category; signals a catalog/classifier mismatch.
    UnclassifiedPattern(String),
    /// A raw pattern in the active catalog is rejected by the matching
    /// engine at compile time.
    InvalidPattern(String),
    /// A directory could not be listed; recovered at the top-level
    /// subdirectory boundary.
    DirectoryReadError(String),
    /// A file could not be opened or read; fatal to the whole run.
    FileReadError(String),
}

impl CensusError {
    /// A short label for each variant, for diagnostics.
    pub fn label(&self) -> (r: &'static str)
        ensures
            self is UnknownProfile ==> r@ == "unknown profile"@,
            self is UnclassifiedPattern ==> r@ == "unclassified pattern"@,
            self is InvalidPattern ==> r@ == "invalid pattern"@,
            self is DirectoryReadError ==> r@ == "directory read error"@,
            self is FileReadError ==> r@ == "file read error"@,
    {
        proof {
            reveal_strlit("unknown profile");
            reveal_strlit("unclassified pattern");
            reveal_strlit("invalid pattern");
            reveal_strlit("directory read error");
            reveal_strlit("file read error");
        }
        match self {
            CensusError::UnknownProfile => "unknown profile",
            CensusError::UnclassifiedPattern(_) => "unclassified pattern",
            CensusError::InvalidPattern(_) => "invalid pattern",
            CensusError::DirectoryReadError(_) => "directory read error",
            CensusError::FileReadError(_) => "file read error",
        }
    }
}

} // verus!
