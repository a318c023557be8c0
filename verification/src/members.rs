//! The member model: fields, methods, constructors, properties, template
//! records, forward declarations, header references and using-aliases,
//! together with the deterministic rendering rules for parameter lists.
use vstd::prelude::*;

use crate::config::GenerationConfig;
use crate::context::CppContext;
use crate::cpp_type::CppType;
use crate::paths::{diff_paths_str, rel_path_of};
use crate::strutil::{clone_strings, str_seqs_eq};

verus! {

/// An ordered list of template parameter names.
#[derive(Clone, Debug, Hash, PartialEq, Eq, PartialOrd, Ord, Default)]
pub struct CppTemplate {
    pub names: Vec<String>,
}

/// The concrete name, namespace and value-type-ness a template takes when
/// it is fully instantiated.
#[derive(Clone, Debug, Hash, PartialEq, Eq, PartialOrd, Ord, Default)]
pub struct CppStructSpecialization {
    pub name: String,
    pub namespace: Option<String>,
    pub is_struct: bool,
    pub template: CppTemplate,
}

/// Forward declarations that share one namespace-opening block: one
/// group per distinct target namespace.
#[derive(Clone, Debug, Hash, PartialEq, Eq)]
pub struct CppForwardDeclareGroup {
    pub namespace: Option<String>,
    pub items: Vec<CppForwardDeclare>,
}

/// A minimal stand-in for a type: enough to typecheck a reference
/// without exposing the full definition. It must carry the exact
/// template shape of the real type.
#[derive(Clone, Debug, Hash, PartialEq, Eq)]
pub struct CppForwardDeclare {
    pub is_struct: bool,
    /// `None` for a nested type, which has no namespace of its own.
    pub namespace: Option<String>,
    pub name: String,
    /// Template parameter names while the target is still generic.
    pub templates: Option<CppTemplate>,
    /// Concrete argument strings when the target is an instantiation.
    pub literals: Option<Vec<String>>,
}

/// A line of emitted text with an optional trailing comment.
#[derive(Clone, Debug, Hash, PartialEq, Eq)]
pub struct CppCommentedString {
    pub data: String,
    pub comment: Option<String>,
}

/// A reference from one emission unit to another unit's header, or to a
/// system header.
#[derive(Clone, Debug, Hash, PartialEq, Eq, PartialOrd, Ord)]
pub struct CppInclude {
    pub path: String,
    pub system: bool,
}

/// A `using`-alias record, so a nested type can be named by its simple
/// name from sibling units.
#[derive(Clone, Debug, Hash, PartialEq, Eq, PartialOrd, Ord)]
pub struct CppUsingAlias {
    pub result: String,
    pub result_literals: Vec<String>,
    pub alias: String,
    pub namespaze: Option<String>,
    pub template: Option<CppTemplate>,
}

/// One member of a declaration, declared or implemented.
#[derive(Clone, Debug, Hash, PartialEq, Eq)]
pub enum CppMember {
    FieldDecl(CppFieldDecl),
    FieldImpl(CppFieldImpl),
    MethodDecl(CppMethodDecl),
    MethodImpl(CppMethodImpl),
    Property(CppProperty),
    Comment(CppCommentedString),
    ConstructorDecl(CppConstructorDecl),
    ConstructorImpl(CppConstructorImpl),
    CppUsingAlias(CppUsingAlias),
}

/// Size and address of the compiled method behind a declaration.
#[derive(Clone, Copy, Debug, Hash, PartialEq, Eq, PartialOrd, Ord)]
pub struct CppMethodData {
    pub estimated_size: usize,
    pub addrs: u64,
}

/// The record emitted beside a method so callers can reach the compiled
/// body: complete name, signature and dispatch metadata.
#[derive(Clone, Debug, Hash, PartialEq, Eq, PartialOrd, Ord)]
pub struct CppMethodSizeStruct {
    pub cpp_method_name: String,
    pub complete_type_name: String,
    pub ret_ty: String,
    pub instance: bool,
    pub params: Vec<CppParam>,
    pub method_data: CppMethodData,
    pub template: CppTemplate,
    pub interface_clazz_of: String,
    pub is_final: bool,
    pub slot: Option<u16>,
}

/// A field declaration. The offset comes from the binary's metadata and
/// is never recomputed: the emitted accessor must carry it exactly.
#[derive(Clone, Debug, Hash, PartialEq, Eq, PartialOrd, Ord)]
pub struct CppFieldDecl {
    pub name: String,
    pub ty: String,
    pub offset: u32,
    pub instance: bool,
    pub readonly: bool,
    pub classof_call: String,
    /// A compile-time constant that overrides runtime storage.
    pub literal_value: Option<String>,
    pub is_value_type: bool,
    /// Whether the declaring type is itself accessed by reference.
    pub declaring_is_reference: bool,
}

/// The implementation half of a field: the declaring type's complete
/// name plus the declared field.
#[derive(Clone, Debug, Hash, PartialEq, Eq, PartialOrd, Ord)]
pub struct CppFieldImpl {
    pub klass_name: String,
    pub field: CppFieldDecl,
}

/// One parameter: name, type, reference/const modifiers and an optional
/// default value.
#[derive(Clone, Debug, Hash, PartialEq, Eq, PartialOrd, Ord)]
pub struct CppParam {
    pub name: String,
    pub ty: String,
    pub modifiers: String,
    pub def_value: Option<String>,
}

/// The declaration half of a method.
#[derive(Clone, Debug, Hash, PartialEq, Eq, PartialOrd, Ord)]
pub struct CppMethodDecl {
    pub cpp_name: String,
    pub return_type: String,
    pub parameters: Vec<CppParam>,
    pub instance: bool,
    pub template: CppTemplate,
    pub suffix_modifiers: String,
    pub prefix_modifiers: String,
    pub method_data: Option<CppMethodData>,
    pub is_virtual: bool,
}

/// The implementation half of a method.
#[derive(Clone, Debug, Hash, PartialEq, Eq, PartialOrd, Ord)]
pub struct CppMethodImpl {
    pub cpp_method_name: String,
    pub cs_method_name: String,
    pub holder_cpp_namespaze: String,
    pub holder_cpp_name: String,
    pub return_type: String,
    pub parameters: Vec<CppParam>,
    pub instance: bool,
    pub template: CppTemplate,
    pub suffix_modifiers: String,
    pub prefix_modifiers: String,
}

/// The declaration half of a constructor.
#[derive(Clone, Debug, Hash, PartialEq, Eq, PartialOrd, Ord)]
pub struct CppConstructorDecl {
    pub ty: String,
    pub parameters: Vec<CppParam>,
    pub template: CppTemplate,
}

/// The implementation half of a constructor.
#[derive(Clone, Debug, Hash, PartialEq, Eq, PartialOrd, Ord)]
pub struct CppConstructorImpl {
    pub holder_cpp_ty_name: String,
    pub parameters: Vec<CppParam>,
    pub is_constexpr: bool,
    pub template: CppTemplate,
}

/// A property: its accessors' metadata and flags.
#[derive(Clone, Debug, Hash, PartialEq, Eq, PartialOrd, Ord)]
pub struct CppProperty {
    pub name: String,
    pub ty: String,
    pub setter: Option<CppMethodData>,
    pub getter: Option<CppMethodData>,
    pub abstr: bool,
    pub instance: bool,
    pub classof_call: String,
}

/// Whether two optional template records carry the same parameter names.
pub open spec fn opt_template_matches(a: Option<CppTemplate>, b: Option<CppTemplate>) -> bool {
    match (a, b) {
        (Some(x), Some(y)) => str_seqs_eq(x.names@, y.names@),
        (None, None) => true,
        _ => false,
    }
}

/// Whether two optional string lists carry the same strings.
pub open spec fn opt_strs_match(a: Option<Vec<String>>, b: Option<Vec<String>>) -> bool {
    match (a, b) {
        (Some(x), Some(y)) => str_seqs_eq(x@, y@),
        (None, None) => true,
        _ => false,
    }
}

impl CppForwardDeclare {
    /// A forward declaration carrying exactly the declared type's kind,
    /// simple name and template shape. A nested type gets no namespace:
    /// it is declared inside its enclosing type.
    pub fn from_cpp_type(cpp_type: &CppType) -> (r: Self)
        ensures
            r.is_struct == cpp_type.is_value_type,
            cpp_type.nested ==> r.namespace is None,
            !cpp_type.nested ==> (r.namespace matches Some(ns) && ns@ == cpp_type.namespace@),
            r.name@ == cpp_type.name@,
            opt_template_matches(r.templates, cpp_type.cpp_template),
            opt_strs_match(r.literals, cpp_type.generic_instantiation_args),
    {
        let ns: Option<String> = if cpp_type.nested {
            None
        } else {
            Some(cpp_type.namespace.clone())
        };
        let templates: Option<CppTemplate> = match &cpp_type.cpp_template {
            Some(t) => Some(CppTemplate { names: clone_strings(&t.names) }),
            None => None,
        };
        let literals: Option<Vec<String>> = match &cpp_type.generic_instantiation_args {
            Some(a) => Some(clone_strings(a)),
            None => None,
        };
        CppForwardDeclare {
            is_struct: cpp_type.is_value_type,
            namespace: ns,
            name: cpp_type.name.clone(),
            templates,
            literals,
        }
    }
}

/// How one parameter renders inside an argument list, default included.
pub open spec fn param_render(p: CppParam) -> Seq<char> {
    match p.def_value {
        Some(v) => p.ty@ + p.modifiers@ + " "@ + p.name@ + " = "@ + v@,
        None => p.ty@ + p.modifiers@ + " "@ + p.name@,
    }
}

/// How one parameter renders with its default value left off.
pub open spec fn param_render_no_default(p: CppParam) -> Seq<char> {
    p.ty@ + p.modifiers@ + " "@ + p.name@
}

/// How one parameter renders as a runtime type-extraction call.
pub open spec fn param_render_extract(p: CppParam) -> Seq<char> {
    "::il2cpp_utils::ExtractType("@ + p.name@ + ")"@
}

impl CppParam {
    /// Renders every parameter as `type modifiers name = default`.
    pub fn params_as_args(params: &[CppParam]) -> (r: Vec<String>)
        ensures
            r@.len() == params@.len(),
            forall|i: int|
                0 <= i < params@.len() ==> (#[trigger] r@[i])@ == param_render(params@[i]),
    {
        let mut r: Vec<String> = Vec::new();
        let mut i: usize = 0;
        while i < params.len()
            invariant
                0 <= i <= params@.len(),
                r@.len() == i,
                forall|k: int| 0 <= k < i ==> (#[trigger] r@[k])@ == param_render(params@[k]),
            decreases params@.len() - i,
        {
            let p = &params[i];
            let base = p.ty.clone().concat(p.modifiers.as_str()).concat(" ").concat(
                p.name.as_str(),
            );
            let line = match &p.def_value {
                Some(v) => base.concat(" = ").concat(v.as_str()),
                None => base,
            };
            proof {
                assert(line@ =~= param_render(params@[i as int]));
            }
            r.push(line);
            i += 1;
        }
        r
    }

    /// Renders every parameter without its default value.
    pub fn params_as_args_no_default(params: &[CppParam]) -> (r: Vec<String>)
        ensures
            r@.len() == params@.len(),
            forall|i: int|
                0 <= i < params@.len() ==> (#[trigger] r@[i])@ == param_render_no_default(
                    params@[i],
                ),
    {
        let mut r: Vec<String> = Vec::new();
        let mut i: usize = 0;
        while i < params.len()
            invariant
                0 <= i <= params@.len(),
                r@.len() == i,
                forall|k: int|
                    0 <= k < i ==> (#[trigger] r@[k])@ == param_render_no_default(params@[k]),
            decreases params@.len() - i,
        {
            let p = &params[i];
            let line = p.ty.clone().concat(p.modifiers.as_str()).concat(" ").concat(
                p.name.as_str(),
            );
            proof {
                assert(line@ =~= param_render_no_default(params@[i as int]));
            }
            r.push(line);
            i += 1;
        }
        r
    }

    /// The parameter names, in order.
    pub fn params_names(params: &[CppParam]) -> (r: Vec<String>)
        ensures
            r@.len() == params@.len(),
            forall|i: int| 0 <= i < params@.len() ==> (#[trigger] r@[i])@ == params@[i].name@,
    {
        let mut r: Vec<String> = Vec::new();
        let mut i: usize = 0;
        while i < params.len()
            invariant
                0 <= i <= params@.len(),
                r@.len() == i,
                forall|k: int| 0 <= k < i ==> (#[trigger] r@[k])@ == params@[k].name@,
            decreases params@.len() - i,
        {
            r.push(params[i].name.clone());
            i += 1;
        }
        r
    }

    /// The parameter types, in order.
    pub fn params_types(params: &[CppParam]) -> (r: Vec<String>)
        ensures
            r@.len() == params@.len(),
            forall|i: int| 0 <= i < params@.len() ==> (#[trigger] r@[i])@ == params@[i].ty@,
    {
        let mut r: Vec<String> = Vec::new();
        let mut i: usize = 0;
        while i < params.len()
            invariant
                0 <= i <= params@.len(),
                r@.len() == i,
                forall|k: int| 0 <= k < i ==> (#[trigger] r@[k])@ == params@[k].ty@,
            decreases params@.len() - i,
        {
            r.push(params[i].ty.clone());
            i += 1;
        }
        r
    }

    /// Renders every parameter as a runtime type-extraction call.
    pub fn params_il2cpp_types(params: &[CppParam]) -> (r: Vec<String>)
        ensures
            r@.len() == params@.len(),
            forall|i: int|
                0 <= i < params@.len() ==> (#[trigger] r@[i])@ == param_render_extract(
                    params@[i],
                ),
    {
        let mut r: Vec<String> = Vec::new();
        let mut i: usize = 0;
        while i < params.len()
            invariant
                0 <= i <= params@.len(),
                r@.len() == i,
                forall|k: int|
                    0 <= k < i ==> (#[trigger] r@[k])@ == param_render_extract(params@[k]),
            decreases params@.len() - i,
        {
            let p = &params[i];
            let line = String::from_str("::il2cpp_utils::ExtractType(").concat(
                p.name.as_str(),
            ).concat(")");
            proof {
                assert(line@ =~= param_render_extract(params@[i as int]));
            }
            r.push(line);
            i += 1;
        }
        r
    }
}

impl CppInclude {
    /// The project-local header reference that reaches `context`'s header
    /// from the header root: the relative path between the two declared
    /// output locations. `None` when no relative path exists between
    /// them, which means the configuration is inconsistent.
    pub fn new_context(context: &CppContext, config: &GenerationConfig) -> (r: Option<Self>)
        ensures
            match rel_path_of(context.typedef_path@, config.header_path@) {
                Some(p) => r matches Some(inc) && inc.path@ == p && !inc.system,
                None => r is None,
            },
    {
        match diff_paths_str(context.typedef_path.as_str(), config.header_path.as_str()) {
            Some(p) => Some(CppInclude { path: p, system: false }),
            None => None,
        }
    }

    /// A system header reference.
    pub fn new_system(s: &str) -> (r: Self)
        ensures
            r.path@ == s@,
            r.system,
    {
        CppInclude { path: s.to_owned(), system: true }
    }

    /// A project-local header reference taken verbatim.
    pub fn new(s: &str) -> (r: Self)
        ensures
            r.path@ == s@,
            !r.system,
    {
        CppInclude { path: s.to_owned(), system: false }
    }
}

} // verus!
