//! The declaration model of one logical type: its identity, its shape
//! flags, its template, and its member collections.
use vstd::prelude::*;

use crate::members::{CppFieldDecl, CppMember, CppTemplate};

verus! {

/// One logical type as the generator declares it.
///
/// A nested type carries no namespace of its own: its `namespace` field
/// holds the namespace of its root ancestor, and `nested` is set.
#[derive(Clone, Debug)]
pub struct CppType {
    pub namespace: String,
    pub name: String,
    pub is_value_type: bool,
    pub is_enum_type: bool,
    pub is_interface: bool,
    pub nested: bool,
    /// Template parameter names while the type is still generic.
    pub cpp_template: Option<CppTemplate>,
    /// Concrete argument strings once the type is an instantiation.
    pub generic_instantiation_args: Option<Vec<String>>,
    /// The instance and static fields, offsets as the metadata gave them.
    pub fields: Vec<CppFieldDecl>,
    /// Declared members of the emitted header.
    pub declarations: Vec<CppMember>,
    /// Implemented members of the emitted source.
    pub implementations: Vec<CppMember>,
}

} // verus!
