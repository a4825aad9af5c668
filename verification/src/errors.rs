use vstd::prelude::*;

verus! {

/// The ways resolving or loading a file can fail.
///
/// The loader deliberately collapses every cause of an open failure
/// (missing file, permissions, is-a-directory, ...) into the single
/// [`LoadError::FileNotFound`] kind: a simple, stable external contract is
/// preferred over diagnostic granularity.
#[derive(Clone, Copy, Debug, PartialEq, Eq, Structural)]
pub enum LoadError {
    /// The base path the call site supplied has no parent directory.
    InvalidBase,
    /// The file at the resolved path could not be opened.
    FileNotFound,
    /// The file was opened but reading it failed part way.
    ReadFailed,
    /// The bytes of the file are not valid UTF-8 (text loading only).
    InvalidEncoding,
}

impl LoadError {
    /// The fixed reason text of this error, as it appears in diagnostics.
    pub open spec fn reason_spec(self) -> Seq<char> {
        match self {
            LoadError::InvalidBase => "invalid source file path"@,
            LoadError::FileNotFound => "file not found"@,
            LoadError::ReadFailed => "unable to read the file"@,
            LoadError::InvalidEncoding => "invalid utf8"@,
        }
    }

    /// Short text naming the failure reason.
    pub fn reason(&self) -> (r: &'static str)
        ensures
            r@ == self.reason_spec(),
    {
        match self {
            LoadError::InvalidBase => "invalid source file path",
            LoadError::FileNotFound => "file not found",
            LoadError::ReadFailed => "unable to read the file",
            LoadError::InvalidEncoding => "invalid utf8",
        }
    }
}

} // verus!
