//! The options the surrounding tool hands to the library.

use vstd::prelude::*;

verus! {

/// What one run needs from the caller: the query, the optional input file,
/// and the two mode flags. The surrounding tool fills this in from its
/// command line and opens the streams itself.
pub struct CliOptions {
    /// The query string, e.g. `"debug | error"`.
    pub query: String,
    /// The input file path; the standard input is read when absent.
    pub input_file: Option<String>,
    /// Report mode: suppress the sink, emit only the counters.
    pub report: bool,
    /// Invert: keep matching lines instead of dropping them.
    pub invert: bool,
}

} // verus!
