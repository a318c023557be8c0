//! An emission unit: the header/source pair one top-level type (with its
//! nested types and satellite instantiations) becomes.
use vstd::prelude::*;

use crate::members::{CppForwardDeclareGroup, CppInclude};

verus! {

/// One emission unit. Created per top-level type; every later pass may
/// add a dependency; finalized once all passes complete.
#[derive(Clone, Debug)]
pub struct CppContext {
    /// The header file this unit is written to.
    pub typedef_path: String,
    /// The units whose full definitions this unit needs, deduplicated,
    /// system headers ahead of project-local ones.
    pub headers: Vec<CppInclude>,
    /// Minimal stand-ins for types this unit only references, one group
    /// per distinct target namespace.
    pub forward_groups: Vec<CppForwardDeclareGroup>,
}

} // verus!
