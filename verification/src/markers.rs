//! Well-known names of the marker objects stored beside a checkpoint.

use vstd::prelude::*;

verus! {

/// Written into the remote directory of an epoch after a complete copy.
pub const SUCCESS_MARKER: &'static str = "_SUCCESS";

/// Supplementary local marker that only test setups configure.
pub const TEST_MARKER: &'static str = "_TEST";

/// Written into the local directory of an epoch once an upload cycle has
/// accounted for it.
pub const UPLOAD_COMPLETED_MARKER: &'static str = "_UPLOAD_COMPLETED";

/// Content of every marker object.
pub const MARKER_CONTENT: &'static str = "success";

} // verus!
