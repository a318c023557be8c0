//! Alias resolution: after both registry passes, every nested type gets
//! a `using`-alias record so sibling units can name it by its simple
//! name without repeating the full enclosing-type path.
use vstd::prelude::*;

use crate::members::{CppTemplate, CppUsingAlias};
use crate::registry::TypeRegistry;
use crate::strutil::{clone_strings, str_seqs_eq};

verus! {

/// Whether this alias record names the child declaration by its simple
/// name, resolving to the enclosing-type path, under the enclosing
/// type's namespace, with the child's exact template shape.
pub open spec fn alias_ok(
    a: CppUsingAlias,
    parent_name: Seq<char>,
    parent_ns: Seq<char>,
    child_name: Seq<char>,
    child_template: Option<CppTemplate>,
) -> bool {
    &&& a.alias@ == child_name
    &&& a.result@ == parent_name + "::"@ + child_name
    &&& (a.namespaze matches Some(ns) && ns@ == parent_ns)
    &&& match (a.template, child_template) {
        (Some(x), Some(y)) => str_seqs_eq(x.names@, y.names@),
        (None, None) => true,
        _ => false,
    }
    &&& a.result_literals@.len() == 0
}

/// One `using`-alias record per recorded nested child of the
/// declaration at `p`, in the child list's order.
pub fn build_nested_aliases(reg: &TypeRegistry, p: usize) -> (r: Vec<CppUsingAlias>)
    requires
        (p as int) < reg.defs@.len(),
        reg.defs@[p as int] is Some,
        forall|j: int|
            0 <= j < reg.defs@[p as int]->Some_0.children@.len() ==> {
                let c = (#[trigger] reg.defs@[p as int]->Some_0.children@[j]) as int;
                0 <= c < reg.defs@.len() && reg.defs@[c] is Some
            },
    ensures
        r@.len() == reg.defs@[p as int]->Some_0.children@.len(),
        forall|j: int|
            0 <= j < r@.len() ==> {
                let pe = reg.defs@[p as int]->Some_0;
                let ce = reg.defs@[pe.children@[j] as int]->Some_0;
                alias_ok(
                    #[trigger] r@[j],
                    pe.decl.name@,
                    pe.decl.namespace@,
                    ce.decl.name@,
                    ce.decl.cpp_template,
                )
            },
{
    let mut r: Vec<CppUsingAlias> = Vec::new();
    let pe = match &reg.defs[p] {
        Some(e) => e,
        None => {
            return r;
        },
    };
    let mut j: usize = 0;
    while j < pe.children.len()
        invariant
            (p as int) < reg.defs@.len(),
            reg.defs@[p as int] is Some,
            pe == &reg.defs@[p as int]->Some_0,
            forall|i: int|
                0 <= i < reg.defs@[p as int]->Some_0.children@.len() ==> {
                    let c = (#[trigger] reg.defs@[p as int]->Some_0.children@[i]) as int;
                    0 <= c < reg.defs@.len() && reg.defs@[c] is Some
                },
            0 <= j <= pe.children@.len(),
            r@.len() == j,
            forall|i: int|
                0 <= i < j ==> {
                    let ce = reg.defs@[pe.children@[i] as int]->Some_0;
                    alias_ok(
                        #[trigger] r@[i],
                        pe.decl.name@,
                        pe.decl.namespace@,
                        ce.decl.name@,
                        ce.decl.cpp_template,
                    )
                },
        decreases pe.children@.len() - j,
    {
        let c = pe.children[j];
        match &reg.defs[c as usize] {
            Some(ce) => {
                let result = pe.decl.name.clone().concat("::").concat(ce.decl.name.as_str());
                proof {
                    assert(result@ =~= pe.decl.name@ + "::"@ + ce.decl.name@);
                }
                let template: Option<CppTemplate> = match &ce.decl.cpp_template {
                    Some(t) => Some(CppTemplate { names: clone_strings(&t.names) }),
                    None => None,
                };
                r.push(
                    CppUsingAlias {
                        result,
                        result_literals: Vec::new(),
                        alias: ce.decl.name.clone(),
                        namespaze: Some(pe.decl.namespace.clone()),
                        template,
                    },
                );
            },
            None => {
                r.push(
                    CppUsingAlias {
                        result: String::new(),
                        result_literals: Vec::new(),
                        alias: String::new(),
                        namespaze: None,
                        template: None,
                    },
                );
            },
        }
        j += 1;
    }
    r
}

} // verus!
