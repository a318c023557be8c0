//! The typed failures of the generator. Fatal inconsistencies of the
//! metadata bubble up and end a run; declared rejections are handled by
//! the caller, which omits the one offending member.
use vstd::prelude::*;

verus! {

#[derive(Clone, Copy, Debug, PartialEq, Eq, Structural)]
pub enum CodegenError {
    /// A putter was requested for a field marked read-only.
    ReadonlyField,
    /// A nested type's enclosing declaration was never created.
    MissingEnclosing { tdi: u32 },
    /// A type-definition index is out of range or its declaring chain
    /// never reaches a top-level type.
    MalformedTypeIndex { tdi: u32 },
    /// A template-argument list does not match the declaration's own
    /// template parameter list.
    TemplateArgMismatch { expected: usize, got: usize },
}

} // verus!
