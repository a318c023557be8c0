//! Dependency resolution: for every type a declaration's fields
//! reference, decide whether the referencing unit needs the referenced
//! unit's full definition (the field holds the value inline) or a mere
//! forward declaration (the field only holds a handle). This is what
//! breaks definition cycles: two types that reference each other only
//! behind handles both resolve to forward declarations.
use vstd::prelude::*;

use crate::config::GenerationConfig;
use crate::cpp_type::CppType;
use crate::members::{
    opt_strs_match, opt_template_matches, CppForwardDeclare, CppForwardDeclareGroup, CppInclude,
};
use crate::metadata::Metadata;
use crate::paths::rel_path_of;
use crate::registry::TypeRegistry;
use crate::strutil::str_eq;

verus! {

/// The type-definition index a type-name string resolves to, if any:
/// full names are unique over a validated table.
pub open spec fn spec_target(md: Metadata, ty: Seq<char>) -> Option<int> {
    if exists|t: int|
        0 <= t < md.type_defs@.len() && (#[trigger] md.type_defs@[t].full_name@) == ty {
        Some(
            choose|t: int|
                0 <= t < md.type_defs@.len() && (#[trigger] md.type_defs@[t].full_name@) == ty,
        )
    } else {
        None
    }
}

/// The emission unit (root index) a type-name string leads to: the
/// resolved type's created entry, then its root ancestor's entry.
pub open spec fn unit_of(reg: TypeRegistry, md: Metadata, ty: Seq<char>) -> Option<int> {
    match spec_target(md, ty) {
        Some(u) => {
            if 0 <= u < reg.defs@.len() && reg.defs@[u] is Some {
                let tr = reg.defs@[u]->Some_0.root as int;
                if 0 <= tr < reg.defs@.len() && reg.defs@[tr] is Some {
                    Some(tr)
                } else {
                    None
                }
            } else {
                None
            }
        },
        None => None,
    }
}

/// Whether a forward declaration stands in for exactly this declared
/// type: same kind, namespace placement, name and template shape.
pub open spec fn fwd_matches(f: CppForwardDeclare, d: CppType) -> bool {
    &&& f.is_struct == d.is_value_type
    &&& (d.nested ==> f.namespace is None)
    &&& (!d.nested ==> (f.namespace matches Some(ns) && ns@ == d.namespace@))
    &&& f.name@ == d.name@
    &&& opt_template_matches(f.templates, d.cpp_template)
    &&& opt_strs_match(f.literals, d.generic_instantiation_args)
}

/// Whether two forward declarations declare the same name in the same
/// namespace block.
pub open spec fn fwd_same(a: CppForwardDeclare, b: CppForwardDeclare) -> bool {
    &&& a.name@ == b.name@
    &&& match (a.namespace, b.namespace) {
        (Some(x), Some(y)) => x@ == y@,
        (None, None) => true,
        _ => false,
    }
}

/// What dependency resolution hands the emission layer for one unit:
/// the units whose definitions it needs, the types it only forward
/// declares, and how many references degraded to opaque placeholders.
pub struct ResolvedDeps {
    pub unit_deps: Vec<u32>,
    pub forward_decls: Vec<CppForwardDeclare>,
    pub unresolved: usize,
}

/// The resolution contract, relative to the declaration's field list:
/// a unit is depended on exactly when some inline-held field leads to
/// it (the referencing unit itself never counts), and a forward
/// declaration stands for each type a handle-held field resolves to.
pub open spec fn deps_resolved(
    deps: ResolvedDeps,
    reg: TypeRegistry,
    md: Metadata,
    root: int,
    decl: CppType,
) -> bool {
    &&& forall|j: int|
        0 <= j < deps.unit_deps@.len() ==> unit_dep_has_source(
            reg,
            md,
            root,
            decl,
            #[trigger] deps.unit_deps@[j],
        )
    &&& forall|k: int|
        0 <= k < decl.fields@.len() && (#[trigger] decl.fields@[k]).is_value_type && (unit_of(
            reg,
            md,
            decl.fields@[k].ty@,
        ) matches Some(ur) && ur != root) ==> exists|j: int|
            0 <= j < deps.unit_deps@.len() && (#[trigger] deps.unit_deps@[j]) as int == unit_of(
                reg,
                md,
                decl.fields@[k].ty@,
            )->Some_0
    &&& forall|j1: int, j2: int|
        0 <= j1 < j2 < deps.unit_deps@.len() ==> (#[trigger] deps.unit_deps@[j1]) != (
        #[trigger] deps.unit_deps@[j2])
    &&& forall|j: int|
        0 <= j < deps.forward_decls@.len() ==> fwd_has_source(
            reg,
            md,
            decl,
            #[trigger] deps.forward_decls@[j],
        )
    &&& forall|k: int|
        0 <= k < decl.fields@.len() && !(#[trigger] decl.fields@[k]).is_value_type
            && (spec_target(md, decl.fields@[k].ty@) matches Some(u) && 0 <= u
            < reg.defs@.len() && reg.defs@[u] is Some) ==> exists|j: int|
            0 <= j < deps.forward_decls@.len() && fwd_matches_name(
                #[trigger] deps.forward_decls@[j],
                reg.defs@[spec_target(md, decl.fields@[k].ty@)->Some_0]->Some_0.decl,
            )
}

/// Whether a forward declaration carries this declared type's name and
/// namespace placement.
pub open spec fn fwd_matches_name(f: CppForwardDeclare, d: CppType) -> bool {
    &&& f.name@ == d.name@
    &&& (d.nested ==> f.namespace is None)
    &&& (!d.nested ==> (f.namespace matches Some(ns) && ns@ == d.namespace@))
}

/// Whether some inline-held field of `decl` leads to the unit `ud`.
pub open spec fn unit_dep_has_source(
    reg: TypeRegistry,
    md: Metadata,
    root: int,
    decl: CppType,
    ud: u32,
) -> bool {
    exists|x: int|
        0 <= x < decl.fields@.len() && (#[trigger] decl.fields@[x]).is_value_type && unit_of(
            reg,
            md,
            decl.fields@[x].ty@,
        ) == Some(ud as int) && ud as int != root
}

/// Whether some handle-held field of `decl` resolves to a created type
/// this forward declaration stands for.
pub open spec fn fwd_has_source(
    reg: TypeRegistry,
    md: Metadata,
    decl: CppType,
    f: CppForwardDeclare,
) -> bool {
    exists|x: int|
        0 <= x < decl.fields@.len() && !(#[trigger] decl.fields@[x]).is_value_type && (spec_target(
            md,
            decl.fields@[x].ty@,
        ) matches Some(w) && 0 <= w < reg.defs@.len() && reg.defs@[w] is Some && fwd_matches(
            f,
            reg.defs@[w]->Some_0.decl,
        ))
}

/// Whether the reference a field makes degrades to an opaque
/// placeholder: an inline-held field whose type leads to no whole unit,
/// or a handle-held field whose type has no created entry.
pub open spec fn field_degrades(reg: TypeRegistry, md: Metadata, decl: CppType, k: int) -> bool {
    if decl.fields@[k].is_value_type {
        unit_of(reg, md, decl.fields@[k].ty@) is None
    } else {
        match spec_target(md, decl.fields@[k].ty@) {
            Some(u) => !(0 <= u < reg.defs@.len() && reg.defs@[u] is Some),
            None => true,
        }
    }
}

/// How many of the first `n` fields degrade.
pub open spec fn degraded_count(reg: TypeRegistry, md: Metadata, decl: CppType, n: int) -> int
    decreases n,
{
    if n <= 0 {
        0
    } else {
        degraded_count(reg, md, decl, n - 1) + if field_degrades(reg, md, decl, n - 1) {
            1int
        } else {
            0int
        }
    }
}

/// Finds the type definition carrying this full qualified name.
fn find_by_full_name(md: &Metadata, ty: &String) -> (r: Option<usize>)
    requires
        md.wf(),
    ensures
        match r {
            Some(t) => (t as int) < md.type_defs@.len() && md.type_defs@[t as int].full_name@
                == ty@ && spec_target(*md, ty@) == Some(t as int),
            None => spec_target(*md, ty@) is None,
        },
{
    let mut t: usize = 0;
    while t < md.type_defs.len()
        invariant
            md.wf(),
            0 <= t <= md.type_defs@.len(),
            forall|u: int| 0 <= u < t ==> (#[trigger] md.type_defs@[u].full_name@) != ty@,
        decreases md.type_defs@.len() - t,
    {
        if str_eq(md.type_defs[t].full_name.as_str(), ty.as_str()) {
            proof {
                let c = spec_target(*md, ty@)->Some_0;
                if c != t as int {
                    assert(md.type_defs@[c].full_name@ == md.type_defs@[t as int].full_name@);
                }
            }
            return Some(t);
        }
        t += 1;
    }
    None
}

/// Whether the list already holds this unit index.
fn contains_u32(v: &Vec<u32>, x: u32) -> (r: bool)
    ensures
        r == exists|j: int| 0 <= j < v@.len() && (#[trigger] v@[j]) == x,
{
    let mut j: usize = 0;
    while j < v.len()
        invariant
            0 <= j <= v@.len(),
            forall|i: int| 0 <= i < j ==> (#[trigger] v@[i]) != x,
        decreases v@.len() - j,
    {
        if v[j] == x {
            return true;
        }
        j += 1;
    }
    false
}

/// Whether the list already forward-declares this name in this
/// namespace block.
fn contains_fwd(v: &Vec<CppForwardDeclare>, f: &CppForwardDeclare) -> (r: bool)
    ensures
        r == exists|j: int| 0 <= j < v@.len() && fwd_same(#[trigger] v@[j], *f),
{
    let mut j: usize = 0;
    while j < v.len()
        invariant
            0 <= j <= v@.len(),
            forall|i: int| 0 <= i < j ==> !fwd_same(#[trigger] v@[i], *f),
        decreases v@.len() - j,
    {
        let c = &v[j];
        let ns_same: bool = match (&c.namespace, &f.namespace) {
            (Some(x), Some(y)) => str_eq(x.as_str(), y.as_str()),
            (None, None) => true,
            _ => false,
        };
        if ns_same && str_eq(c.name.as_str(), f.name.as_str()) {
            proof {
                assert(fwd_same(v@[j as int], *f));
            }
            return true;
        }
        j += 1;
    }
    false
}

/// Resolves every field reference one member declaration of a unit
/// makes (the root type itself, or a type nested in the unit): an
/// inline-held (value type) field makes the referenced type's unit a
/// full dependency; a handle-held field only forward-declares the
/// referenced type; the unit `root` itself never becomes its own
/// dependency. A reference that resolves to no created entry degrades
/// to an opaque placeholder and is counted, never fatal.
pub fn resolve_member_dependencies(
    reg: &TypeRegistry,
    md: &Metadata,
    root: usize,
    member: usize,
) -> (deps: ResolvedDeps)
    requires
        md.wf(),
        reg.defs@.len() == md.type_defs@.len(),
        (root as int) < reg.defs@.len(),
        (member as int) < reg.defs@.len(),
        reg.defs@[member as int] is Some,
    ensures
        deps_resolved(deps, *reg, *md, root as int, reg.defs@[member as int]->Some_0.decl),
        deps.unresolved == degraded_count(
            *reg,
            *md,
            reg.defs@[member as int]->Some_0.decl,
            reg.defs@[member as int]->Some_0.decl.fields@.len() as int,
        ),
{
    let decl = match &reg.defs[member] {
        Some(e) => &e.decl,
        None => {
            return ResolvedDeps {
                unit_deps: Vec::new(),
                forward_decls: Vec::new(),
                unresolved: 0,
            };
        },
    };
    let mut unit_deps: Vec<u32> = Vec::new();
    let mut forward_decls: Vec<CppForwardDeclare> = Vec::new();
    let mut unresolved: usize = 0;
    let mut k: usize = 0;
    while k < decl.fields.len()
        invariant
            md.wf(),
            reg.defs@.len() == md.type_defs@.len(),
            (root as int) < reg.defs@.len(),
            (member as int) < reg.defs@.len(),
            reg.defs@[member as int] is Some,
            decl == &reg.defs@[member as int]->Some_0.decl,
            0 <= k <= decl.fields@.len(),
            unresolved <= k,
            unresolved == degraded_count(*reg, *md, *decl, k as int),
            forall|j: int|
                0 <= j < unit_deps@.len() ==> unit_dep_has_source(
                    *reg,
                    *md,
                    root as int,
                    *decl,
                    #[trigger] unit_deps@[j],
                ),
            forall|x: int|
                0 <= x < k && (#[trigger] decl.fields@[x]).is_value_type && (unit_of(
                    *reg,
                    *md,
                    decl.fields@[x].ty@,
                ) matches Some(ur) && ur != root as int) ==> exists|j: int|
                    0 <= j < unit_deps@.len() && (#[trigger] unit_deps@[j]) as int == unit_of(
                        *reg,
                        *md,
                        decl.fields@[x].ty@,
                    )->Some_0,
            forall|j1: int, j2: int|
                0 <= j1 < j2 < unit_deps@.len() ==> (#[trigger] unit_deps@[j1]) != (
                #[trigger] unit_deps@[j2]),
            forall|j: int|
                0 <= j < forward_decls@.len() ==> fwd_has_source(
                    *reg,
                    *md,
                    *decl,
                    #[trigger] forward_decls@[j],
                ),
            forall|x: int|
                0 <= x < k && !(#[trigger] decl.fields@[x]).is_value_type && (spec_target(
                    *md,
                    decl.fields@[x].ty@,
                ) matches Some(u) && 0 <= u < reg.defs@.len() && reg.defs@[u] is Some)
                    ==> exists|j: int|
                    0 <= j < forward_decls@.len() && fwd_matches_name(
                        #[trigger] forward_decls@[j],
                        reg.defs@[spec_target(*md, decl.fields@[x].ty@)->Some_0]->Some_0.decl,
                    ),
        decreases decl.fields@.len() - k,
    {
        let f = &decl.fields[k];
        match find_by_full_name(md, &f.ty) {
            None => {
                proof {
                    assert(unit_of(*reg, *md, decl.fields@[k as int].ty@) is None);
                    assert(field_degrades(*reg, *md, *decl, k as int));
                }
                unresolved += 1;
            },
            Some(u) => {
                match &reg.defs[u] {
                    None => {
                        proof {
                            assert(unit_of(*reg, *md, decl.fields@[k as int].ty@) is None);
                            assert(field_degrades(*reg, *md, *decl, k as int));
                        }
                        unresolved += 1;
                    },
                    Some(e) => {
                        if f.is_value_type {
                            let tr = e.root;
                            let mut ok: bool = (tr as usize) < reg.defs.len();
                            if ok {
                                ok = reg.defs[tr as usize].is_some();
                            }
                            if !ok {
                                proof {
                                    assert(unit_of(*reg, *md, decl.fields@[k as int].ty@) is None);
                                    assert(field_degrades(*reg, *md, *decl, k as int));
                                }
                                unresolved += 1;
                            } else if (tr as usize) != root {
                                proof {
                                    assert(unit_of(*reg, *md, decl.fields@[k as int].ty@) == Some(
                                        tr as int,
                                    ));
                                }
                                let already = contains_u32(&unit_deps, tr);
                                if !already {
                                    let ghost pre = unit_deps@;
                                    unit_deps.push(tr);
                                    proof {
                                        assert(decl.fields@[k as int].is_value_type);
                                        assert(unit_of(*reg, *md, decl.fields@[k as int].ty@)
                                            == Some(tr as int));
                                        assert(unit_dep_has_source(
                                            *reg,
                                            *md,
                                            root as int,
                                            *decl,
                                            tr,
                                        ));
                                        assert forall|j: int|
                                            0 <= j < unit_deps@.len() implies unit_dep_has_source(
                                            *reg,
                                            *md,
                                            root as int,
                                            *decl,
                                            #[trigger] unit_deps@[j],
                                        ) by {
                                            if j < pre.len() {
                                                assert(unit_deps@[j] == pre[j]);
                                            } else {
                                                assert(unit_deps@[j] == tr);
                                            }
                                        }
                                        assert(unit_deps@[unit_deps@.len() - 1] == tr);
                                        assert forall|x: int|
                                            0 <= x < k && (#[trigger] decl.fields@[x]).is_value_type
                                                && (unit_of(*reg, *md, decl.fields@[x].ty@) matches Some(
                                                ur,
                                            ) && ur != root as int) implies exists|j: int|
                                            0 <= j < unit_deps@.len() && (#[trigger] unit_deps@[j])
                                                as int == unit_of(
                                                *reg,
                                                *md,
                                                decl.fields@[x].ty@,
                                            )->Some_0 by {
                                            let j0 = choose|j: int|
                                                0 <= j < pre.len() && (#[trigger] pre[j]) as int
                                                    == unit_of(
                                                    *reg,
                                                    *md,
                                                    decl.fields@[x].ty@,
                                                )->Some_0;
                                            assert(unit_deps@[j0] == pre[j0]);
                                        }
                                    }
                                }
                                proof {
                                    assert(exists|j: int|
                                        0 <= j < unit_deps@.len() && (#[trigger] unit_deps@[j])
                                            == tr);
                                    assert(!field_degrades(*reg, *md, *decl, k as int));
                                }
                            } else {
                                proof {
                                    assert(unit_of(*reg, *md, decl.fields@[k as int].ty@) == Some(
                                        root as int,
                                    ));
                                    assert(!field_degrades(*reg, *md, *decl, k as int));
                                }
                            }
                        } else {
                            let fd = CppForwardDeclare::from_cpp_type(&e.decl);
                            proof {
                                assert(fwd_matches(fd, reg.defs@[u as int]->Some_0.decl));
                                assert(!field_degrades(*reg, *md, *decl, k as int));
                            }
                            let already = contains_fwd(&forward_decls, &fd);
                            proof {
                                assert(fwd_matches_name(fd, reg.defs@[u as int]->Some_0.decl));
                            }
                            if !already {
                                let ghost pre = forward_decls@;
                                forward_decls.push(fd);
                                proof {
                                    assert(!decl.fields@[k as int].is_value_type);
                                    assert(fwd_has_source(*reg, *md, *decl, forward_decls@[forward_decls@.len() - 1]));
                                    assert forall|j: int|
                                        0 <= j < forward_decls@.len() implies fwd_has_source(
                                        *reg,
                                        *md,
                                        *decl,
                                        #[trigger] forward_decls@[j],
                                    ) by {
                                        if j < pre.len() {
                                            assert(forward_decls@[j] == pre[j]);
                                        }
                                    }
                                    assert(fwd_matches_name(
                                        forward_decls@[forward_decls@.len() - 1],
                                        reg.defs@[u as int]->Some_0.decl,
                                    ));
                                    assert forall|x: int|
                                        0 <= x < k && !(#[trigger] decl.fields@[x]).is_value_type
                                            && (spec_target(*md, decl.fields@[x].ty@) matches Some(
                                            w,
                                        ) && 0 <= w < reg.defs@.len() && reg.defs@[w] is Some)
                                            implies exists|j: int|
                                        0 <= j < forward_decls@.len() && fwd_matches_name(
                                            #[trigger] forward_decls@[j],
                                            reg.defs@[spec_target(
                                                *md,
                                                decl.fields@[x].ty@,
                                            )->Some_0]->Some_0.decl,
                                        ) by {
                                        let j0 = choose|j: int|
                                            0 <= j < pre.len() && fwd_matches_name(
                                                #[trigger] pre[j],
                                                reg.defs@[spec_target(
                                                    *md,
                                                    decl.fields@[x].ty@,
                                                )->Some_0]->Some_0.decl,
                                            );
                                        assert(forward_decls@[j0] == pre[j0]);
                                    }
                                }
                            } else {
                                proof {
                                    let j0 = choose|j: int|
                                        0 <= j < forward_decls@.len() && fwd_same(
                                            #[trigger] forward_decls@[j],
                                            fd,
                                        );
                                    assert(fwd_matches_name(
                                        forward_decls@[j0],
                                        reg.defs@[u as int]->Some_0.decl,
                                    ));
                                }
                            }
                        }
                    },
                }
            },
        }
        k += 1;
    }
    let deps = ResolvedDeps { unit_deps, forward_decls, unresolved };
    proof {
        let d = reg.defs@[member as int]->Some_0.decl;
        assert(*decl == d);
        assert(decl.fields@ == d.fields@);
        assert(degraded_count(*reg, *md, *decl, decl.fields@.len() as int) == degraded_count(
            *reg,
            *md,
            d,
            d.fields@.len() as int,
        ));
        assert forall|k2: int|
            0 <= k2 < d.fields@.len() implies (#[trigger] d.fields@[k2]) == decl.fields@[k2] by {}
        assert(forall|j: int|
            0 <= j < deps.unit_deps@.len() ==> unit_dep_has_source(
                *reg,
                *md,
                root as int,
                d,
                #[trigger] deps.unit_deps@[j],
            ));
        assert forall|k2: int|
            0 <= k2 < d.fields@.len() && (#[trigger] d.fields@[k2]).is_value_type && (unit_of(
                *reg,
                *md,
                d.fields@[k2].ty@,
            ) matches Some(ur) && ur != root as int) implies exists|j: int|
            0 <= j < deps.unit_deps@.len() && (#[trigger] deps.unit_deps@[j]) as int == unit_of(
                *reg,
                *md,
                d.fields@[k2].ty@,
            )->Some_0 by {
            assert(decl.fields@[k2].is_value_type);
            assert(decl.fields@[k2].ty@ == d.fields@[k2].ty@);
            let j0 = choose|j: int|
                0 <= j < unit_deps@.len() && (#[trigger] unit_deps@[j]) as int == unit_of(
                    *reg,
                    *md,
                    decl.fields@[k2].ty@,
                )->Some_0;
            assert(deps.unit_deps@[j0] as int == unit_of(*reg, *md, d.fields@[k2].ty@)->Some_0);
        }
        assert(forall|j: int|
            0 <= j < deps.forward_decls@.len() ==> fwd_has_source(
                *reg,
                *md,
                d,
                #[trigger] deps.forward_decls@[j],
            ));
        assert forall|k2: int|
            0 <= k2 < d.fields@.len() && !(#[trigger] d.fields@[k2]).is_value_type && (spec_target(
                *md,
                d.fields@[k2].ty@,
            ) matches Some(u) && 0 <= u < reg.defs@.len() && reg.defs@[u] is Some) implies exists|j: int|
            0 <= j < deps.forward_decls@.len() && fwd_matches_name(
                #[trigger] deps.forward_decls@[j],
                reg.defs@[spec_target(*md, d.fields@[k2].ty@)->Some_0]->Some_0.decl,
            ) by {
            assert(!decl.fields@[k2].is_value_type);
            assert(decl.fields@[k2].ty@ == d.fields@[k2].ty@);
            let j0 = choose|j: int|
                0 <= j < forward_decls@.len() && fwd_matches_name(
                    #[trigger] forward_decls@[j],
                    reg.defs@[spec_target(*md, decl.fields@[k2].ty@)->Some_0]->Some_0.decl,
                );
            assert(fwd_matches_name(
                deps.forward_decls@[j0],
                reg.defs@[spec_target(*md, d.fields@[k2].ty@)->Some_0]->Some_0.decl,
            ));
        }
    }
    deps
}

/// Resolves the unit root declaration's own field references.
pub fn resolve_dependencies(reg: &TypeRegistry, md: &Metadata, root: usize) -> (deps:
    ResolvedDeps)
    requires
        md.wf(),
        reg.defs@.len() == md.type_defs@.len(),
        (root as int) < reg.defs@.len(),
        reg.defs@[root as int] is Some,
    ensures
        deps_resolved(deps, *reg, *md, root as int, reg.defs@[root as int]->Some_0.decl),
        deps.unresolved == degraded_count(
            *reg,
            *md,
            reg.defs@[root as int]->Some_0.decl,
            reg.defs@[root as int]->Some_0.decl.fields@.len() as int,
        ),
{
    resolve_member_dependencies(reg, md, root, root)
}

/// Forward-declare sufficiency, one direction: a type whose every
/// reference from this declaration sits behind a handle, and into whose
/// unit no inline-held field leads, is never a full unit dependency;
/// it is forward-declared instead.
pub proof fn lemma_forward_declare_sufficiency(
    deps: ResolvedDeps,
    reg: TypeRegistry,
    md: Metadata,
    root: int,
    decl: CppType,
    b: int,
)
    requires
        md.wf(),
        reg.defs@.len() == md.type_defs@.len(),
        deps_resolved(deps, reg, md, root, decl),
        0 <= b < md.type_defs@.len(),
        reg.defs@[b] is Some,
        // every reference to b sits behind a handle
        forall|k: int|
            0 <= k < decl.fields@.len() && (#[trigger] decl.fields@[k]).ty@
                == md.type_defs@[b].full_name@ ==> !decl.fields@[k].is_value_type,
        // b is referenced at all
        exists|k: int|
            0 <= k < decl.fields@.len() && (#[trigger] decl.fields@[k]).ty@
                == md.type_defs@[b].full_name@,
        // no inline-held field leads into b's unit
        forall|k: int|
            0 <= k < decl.fields@.len() && (#[trigger] decl.fields@[k]).is_value_type
                ==> unit_of(reg, md, decl.fields@[k].ty@) != Some(
                reg.defs@[b]->Some_0.root as int,
            ),
    ensures
        forall|j: int|
            0 <= j < deps.unit_deps@.len() ==> (#[trigger] deps.unit_deps@[j]) as int
                != reg.defs@[b]->Some_0.root as int,
        exists|j: int|
            0 <= j < deps.forward_decls@.len() && fwd_matches_name(
                #[trigger] deps.forward_decls@[j],
                reg.defs@[b]->Some_0.decl,
            ),
{
    let rb = reg.defs@[b]->Some_0.root as int;
    assert forall|j: int| 0 <= j < deps.unit_deps@.len() implies (#[trigger] deps.unit_deps@[j])
        as int != rb by {
        if deps.unit_deps@[j] as int == rb {
            let k = choose|k: int|
                0 <= k < decl.fields@.len() && (#[trigger] decl.fields@[k]).is_value_type
                    && unit_of(reg, md, decl.fields@[k].ty@) == Some(
                    deps.unit_deps@[j] as int,
                ) && deps.unit_deps@[j] as int != root;
            assert(unit_of(reg, md, decl.fields@[k].ty@) == Some(rb));
        }
    }
    let k0 = choose|k: int|
        0 <= k < decl.fields@.len() && (#[trigger] decl.fields@[k]).ty@
            == md.type_defs@[b].full_name@;
    assert(spec_target(md, decl.fields@[k0].ty@) == Some(b)) by {
        assert(md.type_defs@[b].full_name@ == decl.fields@[k0].ty@);
        let c = spec_target(md, decl.fields@[k0].ty@)->Some_0;
        if c != b {
            assert(md.type_defs@[c].full_name@ == md.type_defs@[b].full_name@);
        }
    }
}

/// Forward-declare sufficiency, the other direction: a type some field
/// holds inline makes its unit a full dependency of this unit.
pub proof fn lemma_value_dependency_included(
    deps: ResolvedDeps,
    reg: TypeRegistry,
    md: Metadata,
    root: int,
    decl: CppType,
    b: int,
    k: int,
)
    requires
        md.wf(),
        reg.defs@.len() == md.type_defs@.len(),
        deps_resolved(deps, reg, md, root, decl),
        0 <= b < md.type_defs@.len(),
        reg.defs@[b] is Some,
        0 <= reg.defs@[b]->Some_0.root < reg.defs@.len(),
        reg.defs@[reg.defs@[b]->Some_0.root as int] is Some,
        reg.defs@[b]->Some_0.root as int != root,
        0 <= k < decl.fields@.len(),
        decl.fields@[k].is_value_type,
        decl.fields@[k].ty@ == md.type_defs@[b].full_name@,
    ensures
        exists|j: int|
            0 <= j < deps.unit_deps@.len() && (#[trigger] deps.unit_deps@[j]) as int
                == reg.defs@[b]->Some_0.root as int,
{
    let rb = reg.defs@[b]->Some_0.root as int;
    assert(spec_target(md, decl.fields@[k].ty@) == Some(b)) by {
        assert(md.type_defs@[b].full_name@ == decl.fields@[k].ty@);
        let c = spec_target(md, decl.fields@[k].ty@)->Some_0;
        if c != b {
            assert(md.type_defs@[c].full_name@ == md.type_defs@[b].full_name@);
        }
    }
    assert(unit_of(reg, md, decl.fields@[k].ty@) == Some(rb));
    let j = choose|j: int|
        0 <= j < deps.unit_deps@.len() && (#[trigger] deps.unit_deps@[j]) as int == unit_of(
            reg,
            md,
            decl.fields@[k].ty@,
        )->Some_0;
    assert(deps.unit_deps@[j] as int == rb);
}

/// Maps each unit dependency to the header reference the emission
/// layer writes: the relative path from the header root to the unit's
/// declared output location, as a unit names another unit. Where no
/// relative path exists (an inconsistent configuration), the unit's
/// full output path stands in, degraded but never lost.
pub fn unit_headers(reg: &TypeRegistry, units: &Vec<u32>, config: &GenerationConfig) -> (r: Vec<
    CppInclude,
>)
    requires
        forall|j: int|
            0 <= j < units@.len() ==> ((#[trigger] units@[j]) as int) < reg.defs@.len()
                && reg.defs@[units@[j] as int] is Some,
    ensures
        r@.len() == units@.len(),
        forall|j: int|
            0 <= j < units@.len() ==> {
                let inc = #[trigger] r@[j];
                let tp = reg.defs@[(#[trigger] units@[j]) as int]->Some_0.context.typedef_path@;
                &&& !inc.system
                &&& match rel_path_of(tp, config.header_path@) {
                    Some(p) => inc.path@ == p,
                    None => inc.path@ == tp,
                }
            },
{
    let mut r: Vec<CppInclude> = Vec::new();
    let mut j: usize = 0;
    while j < units.len()
        invariant
            forall|i: int|
                0 <= i < units@.len() ==> ((#[trigger] units@[i]) as int) < reg.defs@.len()
                    && reg.defs@[units@[i] as int] is Some,
            0 <= j <= units@.len(),
            r@.len() == j,
            forall|i: int|
                0 <= i < j ==> {
                    let inc = #[trigger] r@[i];
                    let tp = reg.defs@[(#[trigger] units@[i]) as int]->Some_0.context.typedef_path@;
                    &&& !inc.system
                    &&& match rel_path_of(tp, config.header_path@) {
                        Some(p) => inc.path@ == p,
                        None => inc.path@ == tp,
                    }
                },
        decreases units@.len() - j,
    {
        let u = units[j];
        match &reg.defs[u as usize] {
            Some(e) => {
                match CppInclude::new_context(&e.context, config) {
                    Some(inc) => {
                        r.push(inc);
                    },
                    None => {
                        r.push(
                            CppInclude { path: e.context.typedef_path.clone(), system: false },
                        );
                    },
                }
            },
            None => {
                r.push(CppInclude { path: String::new(), system: false });
            },
        }
        j += 1;
    }
    r
}

/// Whether two optional namespaces open the same block.
pub open spec fn ns_same(a: Option<String>, b: Option<String>) -> bool {
    match (a, b) {
        (Some(x), Some(y)) => x@ == y@,
        (None, None) => true,
        _ => false,
    }
}

/// Whether two forward declarations carry the same observable content.
pub open spec fn fwd_view_eq(a: CppForwardDeclare, b: CppForwardDeclare) -> bool {
    &&& a.is_struct == b.is_struct
    &&& ns_same(a.namespace, b.namespace)
    &&& a.name@ == b.name@
    &&& opt_template_matches(a.templates, b.templates)
    &&& opt_strs_match(a.literals, b.literals)
}

/// Whether this forward declaration's content comes from the input list.
pub open spec fn item_from(fwds: Seq<CppForwardDeclare>, x: CppForwardDeclare) -> bool {
    exists|i: int| 0 <= i < fwds.len() && fwd_view_eq(x, #[trigger] fwds[i])
}

/// Decides `ns_same`.
fn ns_eq(a: &Option<String>, b: &Option<String>) -> (r: bool)
    ensures
        r == ns_same(*a, *b),
{
    match (a, b) {
        (Some(x), Some(y)) => str_eq(x.as_str(), y.as_str()),
        (None, None) => true,
        _ => false,
    }
}

/// Copies a forward declaration, keeping its observable content.
fn clone_fwd(f: &CppForwardDeclare) -> (r: CppForwardDeclare)
    ensures
        fwd_view_eq(r, *f),
{
    let namespace: Option<String> = match &f.namespace {
        Some(x) => Some(x.clone()),
        None => None,
    };
    let templates: Option<crate::members::CppTemplate> = match &f.templates {
        Some(t) => Some(
            crate::members::CppTemplate { names: crate::strutil::clone_strings(&t.names) },
        ),
        None => None,
    };
    let literals: Option<Vec<String>> = match &f.literals {
        Some(l) => Some(crate::strutil::clone_strings(l)),
        None => None,
    };
    CppForwardDeclare {
        is_struct: f.is_struct,
        namespace,
        name: f.name.clone(),
        templates,
        literals,
    }
}

/// Whether the list already holds this namespace.
fn contains_ns(v: &Vec<CppForwardDeclare>, f: &CppForwardDeclare) -> (r: bool)
    ensures
        r == exists|j: int| 0 <= j < v@.len() && ns_same((#[trigger] v@[j]).namespace, f.namespace),
{
    let mut j: usize = 0;
    while j < v.len()
        invariant
            0 <= j <= v@.len(),
            forall|i: int| 0 <= i < j ==> !ns_same((#[trigger] v@[i]).namespace, f.namespace),
        decreases v@.len() - j,
    {
        if ns_eq(&v[j].namespace, &f.namespace) {
            proof {
                assert(ns_same(v@[j as int].namespace, f.namespace));
            }
            return true;
        }
        j += 1;
    }
    false
}

/// One representative per distinct namespace, in first-occurrence order.
fn distinct_namespaces(fwds: &Vec<CppForwardDeclare>) -> (reps: Vec<CppForwardDeclare>)
    ensures
        forall|j: int| 0 <= j < reps@.len() ==> item_from(fwds@, #[trigger] reps@[j]),
        forall|j1: int, j2: int|
            0 <= j1 < j2 < reps@.len() ==> !ns_same(
                (#[trigger] reps@[j1]).namespace,
                (#[trigger] reps@[j2]).namespace,
            ),
        forall|i: int|
            0 <= i < fwds@.len() ==> exists|j: int|
                0 <= j < reps@.len() && ns_same(
                    (#[trigger] fwds@[i]).namespace,
                    (#[trigger] reps@[j]).namespace,
                ),
{
    let mut reps: Vec<CppForwardDeclare> = Vec::new();
    let mut i: usize = 0;
    while i < fwds.len()
        invariant
            0 <= i <= fwds@.len(),
            forall|j: int| 0 <= j < reps@.len() ==> item_from(fwds@, #[trigger] reps@[j]),
            forall|j1: int, j2: int|
                0 <= j1 < j2 < reps@.len() ==> !ns_same(
                    (#[trigger] reps@[j1]).namespace,
                    (#[trigger] reps@[j2]).namespace,
                ),
            forall|i2: int|
                0 <= i2 < i ==> exists|j: int|
                    0 <= j < reps@.len() && ns_same(
                        (#[trigger] fwds@[i2]).namespace,
                        (#[trigger] reps@[j]).namespace,
                    ),
        decreases fwds@.len() - i,
    {
        if !contains_ns(&reps, &fwds[i]) {
            let ghost pre = reps@;
            let c = clone_fwd(&fwds[i]);
            reps.push(c);
            proof {
                assert(fwd_view_eq(reps@[reps@.len() - 1], fwds@[i as int]));
                assert forall|i2: int| 0 <= i2 < i + 1 implies exists|j: int|
                    0 <= j < reps@.len() && ns_same(
                        (#[trigger] fwds@[i2]).namespace,
                        (#[trigger] reps@[j]).namespace,
                    ) by {
                    if i2 < i as int {
                        let j0 = choose|j: int|
                            0 <= j < pre.len() && ns_same(
                                fwds@[i2].namespace,
                                (#[trigger] pre[j]).namespace,
                            );
                        assert(ns_same(fwds@[i2].namespace, reps@[j0].namespace));
                    } else {
                        assert(ns_same(fwds@[i2].namespace, reps@[reps@.len() - 1].namespace));
                    }
                }
            }
        } else {
            proof {
                let j0 = choose|j: int|
                    0 <= j < reps@.len() && ns_same(
                        (#[trigger] reps@[j]).namespace,
                        fwds@[i as int].namespace,
                    );
                assert(ns_same(fwds@[i as int].namespace, reps@[j0].namespace));
            }
        }
        i += 1;
    }
    reps
}

/// Collects, in order, a copy of every forward declaration whose
/// namespace matches the one at `target`.
fn collect_ns(fwds: &Vec<CppForwardDeclare>, target: &CppForwardDeclare) -> (items: Vec<
    CppForwardDeclare,
>)
    ensures
        forall|j: int|
            0 <= j < items@.len() ==> ns_same(
                (#[trigger] items@[j]).namespace,
                target.namespace,
            ) && item_from(fwds@, items@[j]),
        forall|x: int|
            0 <= x < fwds@.len() && ns_same((#[trigger] fwds@[x]).namespace, target.namespace)
                ==> exists|j: int|
                0 <= j < items@.len() && fwd_view_eq(#[trigger] items@[j], fwds@[x]),
{
    let mut items: Vec<CppForwardDeclare> = Vec::new();
    let mut x: usize = 0;
    while x < fwds.len()
        invariant
            0 <= x <= fwds@.len(),
            forall|j: int|
                0 <= j < items@.len() ==> ns_same(
                    (#[trigger] items@[j]).namespace,
                    target.namespace,
                ) && item_from(fwds@, items@[j]),
            forall|x2: int|
                0 <= x2 < x && ns_same((#[trigger] fwds@[x2]).namespace, target.namespace)
                    ==> exists|j: int|
                    0 <= j < items@.len() && fwd_view_eq(#[trigger] items@[j], fwds@[x2]),
        decreases fwds@.len() - x,
    {
        if ns_eq(&fwds[x].namespace, &target.namespace) {
            let ghost pre = items@;
            let c = clone_fwd(&fwds[x]);
            items.push(c);
            proof {
                assert(fwd_view_eq(items@[items@.len() - 1], fwds@[x as int]));
                assert(ns_same(items@[items@.len() - 1].namespace, target.namespace));
                assert forall|x2: int|
                    0 <= x2 < x + 1 && ns_same((#[trigger] fwds@[x2]).namespace, target.namespace)
                        implies exists|j: int|
                    0 <= j < items@.len() && fwd_view_eq(#[trigger] items@[j], fwds@[x2]) by {
                    if x2 < x as int {
                        let j0 = choose|j: int|
                            0 <= j < pre.len() && fwd_view_eq(#[trigger] pre[j], fwds@[x2]);
                        assert(fwd_view_eq(items@[j0], fwds@[x2]));
                    }
                }
            }
        }
        x += 1;
    }
    items
}

/// Groups a unit's forward declarations into one block per distinct
/// target namespace, in first-occurrence order: the blocks' namespaces
/// are pairwise distinct, no block is empty, every declaration of a
/// block carries the block's namespace and comes from the input, every
/// input namespace has a block, and each block holds every input
/// declaration of its namespace.
#[verifier::rlimit(100)]
#[verifier::spinoff_prover]
pub fn group_forward_declares(fwds: &Vec<CppForwardDeclare>) -> (groups: Vec<
    CppForwardDeclareGroup,
>)
    ensures
        forall|g1: int, g2: int|
            0 <= g1 < g2 < groups@.len() ==> !ns_same(
                (#[trigger] groups@[g1]).namespace,
                (#[trigger] groups@[g2]).namespace,
            ),
        forall|g: int, j: int|
            0 <= g < groups@.len() && 0 <= j < groups@[g].items@.len() ==> ns_same(
                (#[trigger] groups@[g].items@[j]).namespace,
                groups@[g].namespace,
            ) && item_from(fwds@, groups@[g].items@[j]),
        forall|g: int| 0 <= g < groups@.len() ==> (#[trigger] groups@[g]).items@.len() >= 1,
        forall|i: int|
            0 <= i < fwds@.len() ==> exists|g: int|
                0 <= g < groups@.len() && ns_same(
                    (#[trigger] fwds@[i]).namespace,
                    (#[trigger] groups@[g]).namespace,
                ),
        forall|g: int, x: int|
            0 <= g < groups@.len() && 0 <= x < fwds@.len() && ns_same(
                (#[trigger] fwds@[x]).namespace,
                (#[trigger] groups@[g]).namespace,
            ) ==> exists|j: int|
                0 <= j < groups@[g].items@.len() && fwd_view_eq(
                    #[trigger] groups@[g].items@[j],
                    fwds@[x],
                ),
{
    let reps = distinct_namespaces(fwds);
    let mut groups: Vec<CppForwardDeclareGroup> = Vec::new();
    let mut g: usize = 0;
    while g < reps.len()
        invariant
            0 <= g <= reps@.len(),
            groups@.len() == g,
            forall|j: int| 0 <= j < reps@.len() ==> item_from(fwds@, #[trigger] reps@[j]),
            forall|j1: int, j2: int|
                0 <= j1 < j2 < reps@.len() ==> !ns_same(
                    (#[trigger] reps@[j1]).namespace,
                    (#[trigger] reps@[j2]).namespace,
                ),
            forall|i: int|
                0 <= i < fwds@.len() ==> exists|j: int|
                    0 <= j < reps@.len() && ns_same(
                        (#[trigger] fwds@[i]).namespace,
                        (#[trigger] reps@[j]).namespace,
                    ),
            forall|g2: int|
                0 <= g2 < g ==> ns_same(
                    (#[trigger] groups@[g2]).namespace,
                    reps@[g2].namespace,
                ),
            forall|g2: int, j: int|
                0 <= g2 < g && 0 <= j < groups@[g2].items@.len() ==> ns_same(
                    (#[trigger] groups@[g2].items@[j]).namespace,
                    groups@[g2].namespace,
                ) && item_from(fwds@, groups@[g2].items@[j]),
            forall|g2: int| 0 <= g2 < g ==> (#[trigger] groups@[g2]).items@.len() >= 1,
            forall|g2: int, x: int|
                0 <= g2 < g && 0 <= x < fwds@.len() && ns_same(
                    (#[trigger] fwds@[x]).namespace,
                    (#[trigger] groups@[g2]).namespace,
                ) ==> exists|j: int|
                    0 <= j < groups@[g2].items@.len() && fwd_view_eq(
                        #[trigger] groups@[g2].items@[j],
                        fwds@[x],
                    ),
        decreases reps@.len() - g,
    {
        let rep = &reps[g];
        let items = collect_ns(fwds, rep);
        proof {
            let i0 = choose|i: int| 0 <= i < fwds@.len() && fwd_view_eq(*rep, #[trigger] fwds@[i]);
            assert(ns_same(fwds@[i0].namespace, rep.namespace));
            assert(exists|j: int|
                0 <= j < items@.len() && fwd_view_eq(#[trigger] items@[j], fwds@[i0]));
            assert(items@.len() >= 1);
        }
        let namespace: Option<String> = match &rep.namespace {
            Some(x) => Some(x.clone()),
            None => None,
        };
        proof {
            assert(ns_same(namespace, rep.namespace));
        }
        let ghost pre = groups@;
        groups.push(CppForwardDeclareGroup { namespace, items });
        proof {
            let gl = groups@.len() - 1;
            assert forall|g2: int| 0 <= g2 < gl implies groups@[g2] == pre[g2] by {}
            assert(ns_same(groups@[gl].namespace, reps@[gl].namespace));
            assert(groups@[gl].items@.len() >= 1);
            assert forall|j: int| 0 <= j < groups@[gl].items@.len() implies ns_same(
                (#[trigger] groups@[gl].items@[j]).namespace,
                groups@[gl].namespace,
            ) && item_from(fwds@, groups@[gl].items@[j]) by {
                assert(ns_same(groups@[gl].items@[j].namespace, reps@[gl].namespace));
            }
            assert forall|x: int|
                0 <= x < fwds@.len() && ns_same(
                    (#[trigger] fwds@[x]).namespace,
                    groups@[gl].namespace,
                ) implies exists|j: int|
                0 <= j < groups@[gl].items@.len() && fwd_view_eq(
                    #[trigger] groups@[gl].items@[j],
                    fwds@[x],
                ) by {
                assert(ns_same(fwds@[x].namespace, reps@[gl].namespace));
            }
            assert forall|g2: int, x: int|
                0 <= g2 < gl && 0 <= x < fwds@.len() && ns_same(
                    (#[trigger] fwds@[x]).namespace,
                    (#[trigger] groups@[g2]).namespace,
                ) implies exists|j: int|
                0 <= j < groups@[g2].items@.len() && fwd_view_eq(
                    #[trigger] groups@[g2].items@[j],
                    fwds@[x],
                ) by {
                let j0 = choose|j: int|
                    0 <= j < pre[g2].items@.len() && fwd_view_eq(
                        #[trigger] pre[g2].items@[j],
                        fwds@[x],
                    );
                assert(fwd_view_eq(groups@[g2].items@[j0], fwds@[x]));
            }
        }
        g += 1;
    }
    proof {
        assert forall|i: int| 0 <= i < fwds@.len() implies exists|g2: int|
            0 <= g2 < groups@.len() && ns_same(
                (#[trigger] fwds@[i]).namespace,
                (#[trigger] groups@[g2]).namespace,
            ) by {
            let j0 = choose|j: int|
                0 <= j < reps@.len() && ns_same(
                    fwds@[i].namespace,
                    (#[trigger] reps@[j]).namespace,
                );
            assert(ns_same(groups@[j0].namespace, reps@[j0].namespace));
            assert(ns_same(fwds@[i].namespace, groups@[j0].namespace));
        }
    }
    groups
}

} // verus!
