//! Output-layout configuration the generator is handed once at startup.
use vstd::prelude::*;

verus! {

/// Where the generated tree is rooted and how emission is toggled.
pub struct GenerationConfig {
    /// Root directory of the generated headers.
    pub header_path: String,
    /// Root directory of the generated sources.
    pub source_path: String,
    /// Directory that receives the fixed support-header bundle.
    pub dst_internals_path: String,
    /// The support header that every generated header pulls in.
    pub dst_header_internals_file: String,
    /// Whether emitted helpers sit in an anonymous namespace.
    pub use_anonymous_namespace: bool,
}

// Generic-method monomorphization (one compiled body per observed
// call-site instantiation) is deliberately not offered: only class
// instantiations are materialized, so there is no toggle for it here.

} // verus!
