//! The failures a run can end in.

use vstd::prelude::*;

verus! {

/// Why an invocation failed. Every failure ends the invocation.
#[derive(Debug, PartialEq, Eq)]
pub enum RunError {
    /// The command line did not hold exactly one source path.
    Usage,
    /// The extension is not one the runner knows; it holds the extension, empty
    /// where the path has none.
    UnsupportedExtension(String),
    /// The compiled source is not syntactically well formed.
    Parse,
    /// The existing build manifest is malformed; it holds the parser's message.
    Manifest(String),
    /// A subprocess failed to launch or exited unsuccessfully; it holds what
    /// the failure reported.
    Process(String),
}

} // verus!
