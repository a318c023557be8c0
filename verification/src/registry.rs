//! The type registry: one declaration per logical type, built in two
//! passes (top-level types first, nested types second, because a nested
//! type needs its root ancestor's identity), then an attachment step
//! that records every nested type under its declaring type.
use vstd::prelude::*;

use crate::config::GenerationConfig;
use crate::context::CppContext;
use crate::cpp_type::CppType;
use crate::errors::CodegenError;
use crate::members::{CppFieldDecl, CppTemplate};
use crate::metadata::{Blacklist, FieldMeta, Metadata, TypeDefMeta, DECLARING_NONE};
use crate::strutil::{clone_strings, str_seqs_eq};

verus! {

/// The identity of a registered type: an ordinary type definition or a
/// generic instantiation synthesized for concrete arguments.
#[derive(Clone, Debug)]
pub enum TypeTag {
    Definition { tdi: u32 },
    Instantiation { tdi: u32, args: Vec<String> },
}

/// A declaration made from one type definition.
pub struct DefEntry {
    pub decl: CppType,
    /// Declaring type index; `None` for a top-level type.
    pub parent: Option<u32>,
    /// Root ancestor index; the entry's own index for a top-level type.
    pub root: u32,
    /// The nested types recorded under this declaration.
    pub children: Vec<u32>,
    /// The emission unit of a top-level type.
    pub context: CppContext,
}

/// A synthesized generic instantiation.
pub struct InstEntry {
    /// The type definition the instantiation was made from.
    pub tdi: u32,
    /// The concrete type arguments, in order.
    pub args: Vec<String>,
    pub decl: CppType,
}

/// The registry: one slot per type-definition index (skipped types stay
/// empty) and the synthesized instantiations in creation order.
pub struct TypeRegistry {
    pub defs: Vec<Option<DefEntry>>,
    pub insts: Vec<InstEntry>,
}

/// Whether two optional strings carry the same characters.
pub open spec fn opt_str_matches(a: Option<String>, b: Option<String>) -> bool {
    match (a, b) {
        (Some(x), Some(y)) => x@ == y@,
        (None, None) => true,
        _ => false,
    }
}

/// A created field declaration carries the metadata's facts verbatim:
/// the offset above all, never recomputed.
pub open spec fn field_matches(r: CppFieldDecl, fm: FieldMeta, td: TypeDefMeta) -> bool {
    &&& r.name@ == fm.name@
    &&& r.ty@ == fm.ty_name@
    &&& r.offset == fm.offset
    &&& r.instance == fm.instance
    &&& r.readonly == fm.readonly
    &&& r.classof_call@ == td.full_name@
    &&& opt_str_matches(r.literal_value, fm.literal_value)
    &&& r.is_value_type == fm.is_value_type
    &&& r.declaring_is_reference == !td.is_value_type
}

/// A created declaration mirrors its type definition: same simple name,
/// the given namespace, the definition's flags, its template parameter
/// names, and one field per metadata field.
pub open spec fn decl_matches(decl: CppType, td: TypeDefMeta, ns: Seq<char>, nested: bool) -> bool {
    &&& decl.name@ == td.name@
    &&& decl.namespace@ == ns
    &&& decl.is_value_type == td.is_value_type
    &&& decl.is_enum_type == td.is_enum
    &&& decl.is_interface == td.is_interface
    &&& decl.nested == nested
    &&& if td.generic_params@.len() == 0 {
        decl.cpp_template is None
    } else {
        decl.cpp_template matches Some(ct) && str_seqs_eq(ct.names@, td.generic_params@)
    }
    &&& decl.generic_instantiation_args is None
    &&& decl.fields@.len() == td.fields@.len()
    &&& forall|k: int|
        0 <= k < td.fields@.len() ==> field_matches(#[trigger] decl.fields@[k], td.fields@[k], td)
}

/// The header a top-level type's unit is written to.
pub open spec fn top_path(config: GenerationConfig, td: TypeDefMeta) -> Seq<char> {
    config.header_path@ + "/"@ + td.namespace@ + "/"@ + td.name@ + ".hpp"@
}

/// What pass 1 leaves in a slot it fills.
pub open spec fn top_entry_ok(e: DefEntry, md: Metadata, config: GenerationConfig, t: int) -> bool {
    &&& e.parent is None
    &&& e.root == t
    &&& e.children@.len() == 0
    &&& decl_matches(e.decl, md.type_defs@[t], md.type_defs@[t].namespace@, false)
    &&& e.context.typedef_path@ == top_path(config, md.type_defs@[t])
    &&& e.context.headers@.len() == 0
    &&& e.context.forward_groups@.len() == 0
}

/// The root ancestor reached by following declaring-type indices for at
/// most `fuel` steps; `None` for an out-of-range index or a cycle.
pub open spec fn chain_root(md: Metadata, t: int, fuel: nat) -> Option<int>
    decreases fuel,
{
    if !(0 <= t < md.type_defs@.len()) {
        None
    } else if md.type_defs@[t].declaring_index == DECLARING_NONE {
        Some(t)
    } else if fuel == 0 {
        None
    } else {
        chain_root(md, md.type_defs@[t].declaring_index as int, (fuel - 1) as nat)
    }
}

/// The root ancestor of `t`: table length as fuel is enough for any
/// acyclic chain.
pub open spec fn root_of(md: Metadata, t: int) -> Option<int> {
    chain_root(md, t, md.type_defs@.len() as nat)
}

/// Whether any type on the declaring chain out of `t` (itself included)
/// is excluded, within `fuel` steps.
pub open spec fn chain_excluded(md: Metadata, bl: Blacklist, t: int, fuel: nat) -> bool
    decreases fuel,
{
    if !(0 <= t < md.type_defs@.len()) {
        false
    } else if bl.spec_excluded(t) {
        true
    } else if md.type_defs@[t].declaring_index == DECLARING_NONE || fuel == 0 {
        false
    } else {
        chain_excluded(md, bl, md.type_defs@[t].declaring_index as int, (fuel - 1) as nat)
    }
}

/// Whether the filter policy excludes `t` or any of its ancestors.
pub open spec fn excluded_on_chain(md: Metadata, bl: Blacklist, t: int) -> bool {
    chain_excluded(md, bl, t, md.type_defs@.len() as nat)
}

/// What pass 2 leaves in a slot it fills: the declaring type recorded as
/// parent, the root ancestor resolved, and the declaration carrying the
/// root ancestor's namespace, since a nested type has none of its own.
pub open spec fn nested_entry_ok(e: DefEntry, md: Metadata, t: int) -> bool {
    &&& e.parent == Some(md.type_defs@[t].declaring_index)
    &&& root_of(md, t) == Some(e.root as int)
    &&& 0 <= e.root < md.type_defs@.len()
    &&& decl_matches(e.decl, md.type_defs@[t], md.type_defs@[e.root as int].namespace@, true)
}

/// Builds one field declaration from the metadata's field record.
fn field_from_meta(fm: &FieldMeta, td: &TypeDefMeta) -> (r: CppFieldDecl)
    ensures
        field_matches(r, *fm, *td),
{
    let literal_value: Option<String> = match &fm.literal_value {
        Some(v) => Some(v.clone()),
        None => None,
    };
    CppFieldDecl {
        name: fm.name.clone(),
        ty: fm.ty_name.clone(),
        offset: fm.offset,
        instance: fm.instance,
        readonly: fm.readonly,
        classof_call: td.full_name.clone(),
        literal_value,
        is_value_type: fm.is_value_type,
        declaring_is_reference: !td.is_value_type,
    }
}

/// Builds the declaration for one type definition, under the namespace
/// its unit places it in.
fn make_decl(td: &TypeDefMeta, ns: &String, nested: bool) -> (r: CppType)
    ensures
        decl_matches(r, *td, ns@, nested),
{
    let cpp_template: Option<CppTemplate> = if td.generic_params.len() == 0 {
        None
    } else {
        Some(CppTemplate { names: clone_strings(&td.generic_params) })
    };
    let mut fields: Vec<CppFieldDecl> = Vec::new();
    let mut k: usize = 0;
    while k < td.fields.len()
        invariant
            0 <= k <= td.fields@.len(),
            fields@.len() == k,
            forall|j: int|
                0 <= j < k ==> field_matches(#[trigger] fields@[j], td.fields@[j], *td),
        decreases td.fields@.len() - k,
    {
        fields.push(field_from_meta(&td.fields[k], td));
        k += 1;
    }
    CppType {
        namespace: ns.clone(),
        name: td.name.clone(),
        is_value_type: td.is_value_type,
        is_enum_type: td.is_enum,
        is_interface: td.is_interface,
        nested,
        cpp_template,
        generic_instantiation_args: None,
        fields,
        declarations: Vec::new(),
        implementations: Vec::new(),
    }
}

/// Pass 1: one context and one declaration per top-level type the filter
/// lets through, in table order. Nested and excluded types leave their
/// slot empty for pass 2.
pub fn make_top_level_types(md: &Metadata, bl: &Blacklist, config: &GenerationConfig) -> (r:
    TypeRegistry)
    requires
        md.wf(),
        bl.wf(*md),
    ensures
        r.insts@.len() == 0,
        r.defs@.len() == md.type_defs@.len(),
        forall|t: int|
            0 <= t < md.type_defs@.len() ==> ((#[trigger] r.defs@[t]) is Some <==> (
            md.type_defs@[t].declaring_index == DECLARING_NONE && !bl.spec_excluded(t))),
        forall|t: int|
            0 <= t < md.type_defs@.len() && r.defs@[t] is Some ==> top_entry_ok(
                (#[trigger] r.defs@[t])->Some_0,
                *md,
                *config,
                t,
            ),
{
    let mut defs: Vec<Option<DefEntry>> = Vec::new();
    let mut t: usize = 0;
    while t < md.type_defs.len()
        invariant
            md.wf(),
            bl.wf(*md),
            0 <= t <= md.type_defs@.len(),
            defs@.len() == t,
            forall|u: int|
                0 <= u < t ==> ((#[trigger] defs@[u]) is Some <==> (
                md.type_defs@[u].declaring_index == DECLARING_NONE && !bl.spec_excluded(u))),
            forall|u: int|
                0 <= u < t && defs@[u] is Some ==> top_entry_ok(
                    (#[trigger] defs@[u])->Some_0,
                    *md,
                    *config,
                    u,
                ),
        decreases md.type_defs@.len() - t,
    {
        let td = &md.type_defs[t];
        if td.declaring_index != DECLARING_NONE || bl.is_excluded(t as u32) {
            defs.push(None);
        } else {
            let typedef_path = config.header_path.clone().concat("/").concat(
                td.namespace.as_str(),
            ).concat("/").concat(td.name.as_str()).concat(".hpp");
            proof {
                assert(typedef_path@ =~= top_path(*config, md.type_defs@[t as int]));
            }
            let entry = DefEntry {
                decl: make_decl(td, &td.namespace, false),
                parent: None,
                root: t as u32,
                children: Vec::new(),
                context: CppContext {
                    typedef_path,
                    headers: Vec::new(),
                    forward_groups: Vec::new(),
                },
            };
            defs.push(Some(entry));
        }
        t += 1;
    }
    TypeRegistry { defs, insts: Vec::new() }
}

/// Follows the declaring chain out of `tdi` to its root, telling at the
/// same time whether any type on the chain is excluded. A chain that
/// leaves the table or never reaches a top-level type is the fatal
/// malformed-index error.
fn walk_chain(md: &Metadata, bl: &Blacklist, tdi: u32) -> (r: Result<(u32, bool), CodegenError>)
    requires
        md.wf(),
        bl.wf(*md),
        (tdi as int) < md.type_defs@.len(),
    ensures
        match r {
            Ok(p) => {
                &&& root_of(*md, tdi as int) == Some(p.0 as int)
                &&& 0 <= (p.0 as int) < md.type_defs@.len()
                &&& md.type_defs@[p.0 as int].declaring_index == DECLARING_NONE
                &&& p.1 == excluded_on_chain(*md, *bl, tdi as int)
            },
            Err(e) => {
                &&& root_of(*md, tdi as int) is None
                &&& e == (CodegenError::MalformedTypeIndex { tdi })
            },
        },
{
    let len: usize = md.type_defs.len();
    let mut cur: u32 = tdi;
    let mut steps: usize = 0;
    let mut ex: bool = bl.is_excluded(cur);
    while md.type_defs[cur as usize].declaring_index != DECLARING_NONE
        invariant
            md.wf(),
            bl.wf(*md),
            len == md.type_defs@.len(),
            (cur as int) < md.type_defs@.len(),
            steps <= len,
            chain_root(*md, tdi as int, len as nat) == chain_root(
                *md,
                cur as int,
                (len - steps) as nat,
            ),
            excluded_on_chain(*md, *bl, tdi as int) == (ex || chain_excluded(
                *md,
                *bl,
                cur as int,
                (len - steps) as nat,
            )),
            bl.spec_excluded(cur as int) ==> ex,
        decreases len - steps,
    {
        let d: u32 = md.type_defs[cur as usize].declaring_index;
        if steps == len {
            proof {
                assert(chain_root(*md, cur as int, (len - steps) as nat) is None);
            }
            return Err(CodegenError::MalformedTypeIndex { tdi });
        }
        if (d as usize) >= len {
            proof {
                assert(chain_root(*md, cur as int, (len - steps) as nat) == chain_root(
                    *md,
                    d as int,
                    (len - steps - 1) as nat,
                ));
                assert(chain_root(*md, d as int, (len - steps - 1) as nat) is None);
            }
            return Err(CodegenError::MalformedTypeIndex { tdi });
        }
        proof {
            assert(chain_root(*md, cur as int, (len - steps) as nat) == chain_root(
                *md,
                d as int,
                (len - steps - 1) as nat,
            ));
            assert(chain_excluded(*md, *bl, cur as int, (len - steps) as nat) == (bl.spec_excluded(
                cur as int,
            ) || chain_excluded(*md, *bl, d as int, (len - steps - 1) as nat)));
        }
        cur = d;
        steps += 1;
        if bl.is_excluded(cur) {
            ex = true;
        }
    }
    proof {
        assert(chain_root(*md, cur as int, (len - steps) as nat) == Some(cur as int));
        assert(chain_excluded(*md, *bl, cur as int, (len - steps) as nat) == bl.spec_excluded(
            cur as int,
        ));
    }
    Ok((cur, ex))
}

/// Pass 2: one declaration per nested type whose declaring chain is
/// whole and free of excluded types, placed under its root ancestor's
/// namespace. A malformed chain is a fatal inconsistency.
pub fn make_nested_types(reg: &mut TypeRegistry, md: &Metadata, bl: &Blacklist) -> (r: Result<
    (),
    CodegenError,
>)
    requires
        md.wf(),
        bl.wf(*md),
        old(reg).defs@.len() == md.type_defs@.len(),
        forall|t: int|
            0 <= t < md.type_defs@.len() ==> ((#[trigger] old(reg).defs@[t]) is Some <==> (
            md.type_defs@[t].declaring_index == DECLARING_NONE && !bl.spec_excluded(t))),
    ensures
        final(reg).insts@ == old(reg).insts@,
        final(reg).defs@.len() == old(reg).defs@.len(),
        forall|t: int|
            0 <= t < md.type_defs@.len() && old(reg).defs@[t] is Some
                ==> (#[trigger] final(reg).defs@[t]) == old(reg).defs@[t],
        r is Ok ==> forall|t: int|
            0 <= t < md.type_defs@.len() && md.type_defs@[t].declaring_index != DECLARING_NONE
                ==> ((#[trigger] final(reg).defs@[t]) is Some <==> (!excluded_on_chain(
                *md,
                *bl,
                t,
            ) && root_of(*md, t) is Some)),
        r is Ok ==> forall|t: int|
            0 <= t < md.type_defs@.len() && md.type_defs@[t].declaring_index != DECLARING_NONE
                && final(reg).defs@[t] is Some ==> nested_entry_ok(
                (#[trigger] final(reg).defs@[t])->Some_0,
                *md,
                t,
            ),
        r is Ok <==> (forall|t: int|
            0 <= t < md.type_defs@.len() && (#[trigger] md.type_defs@[t]).declaring_index
                != DECLARING_NONE && !bl.spec_excluded(t) ==> root_of(*md, t) is Some),
        r matches Err(e) ==> (e matches CodegenError::MalformedTypeIndex { tdi } && (tdi as int)
            < md.type_defs@.len() && md.type_defs@[tdi as int].declaring_index != DECLARING_NONE
            && !bl.spec_excluded(tdi as int) && root_of(*md, tdi as int) is None),
{
    let mut t: usize = 0;
    while t < md.type_defs.len()
        invariant
            md.wf(),
            bl.wf(*md),
            reg.defs@.len() == md.type_defs@.len(),
            old(reg).defs@.len() == md.type_defs@.len(),
            reg.insts@ == old(reg).insts@,
            0 <= t <= md.type_defs@.len(),
            forall|u: int|
                0 <= u < md.type_defs@.len() ==> ((#[trigger] old(reg).defs@[u]) is Some <==> (
                md.type_defs@[u].declaring_index == DECLARING_NONE && !bl.spec_excluded(u))),
            forall|u: int|
                0 <= u < md.type_defs@.len() && old(reg).defs@[u] is Some ==> (#[trigger] reg.defs@[u])
                    == old(reg).defs@[u],
            forall|u: int|
                t <= u < md.type_defs@.len() && old(reg).defs@[u] is None ==> (
                #[trigger] reg.defs@[u]) is None,
            forall|u: int|
                0 <= u < t && md.type_defs@[u].declaring_index != DECLARING_NONE ==> ((
                #[trigger] reg.defs@[u]) is Some <==> (!excluded_on_chain(*md, *bl, u)
                    && root_of(*md, u) is Some)),
            forall|u: int|
                0 <= u < t && (#[trigger] md.type_defs@[u]).declaring_index != DECLARING_NONE
                    && !bl.spec_excluded(u) ==> root_of(*md, u) is Some,
            forall|u: int|
                0 <= u < t && md.type_defs@[u].declaring_index != DECLARING_NONE
                    && reg.defs@[u] is Some ==> nested_entry_ok(
                    (#[trigger] reg.defs@[u])->Some_0,
                    *md,
                    u,
                ),
        decreases md.type_defs@.len() - t,
    {
        let td = &md.type_defs[t];
        if td.declaring_index != DECLARING_NONE && !bl.is_excluded(t as u32) {
            let walked = walk_chain(md, bl, t as u32);
            match walked {
                Err(e) => {
                    proof {
                        assert(root_of(*md, t as int) is None);
                    }
                    return Err(e);
                },
                Ok((root, ex)) => {
                    if !ex {
                        let root_td = &md.type_defs[root as usize];
                        let entry = DefEntry {
                            decl: make_decl(td, &root_td.namespace, true),
                            parent: Some(td.declaring_index),
                            root,
                            children: Vec::new(),
                            context: CppContext {
                                typedef_path: String::new(),
                                headers: Vec::new(),
                                forward_groups: Vec::new(),
                            },
                        };
                        reg.defs[t] = Some(entry);
                    }
                },
            }
        }
        t += 1;
    }
    Ok(())
}

/// The attachment facts the pipeline establishes: every recorded child
/// is a created nested type of exactly that parent, each list is
/// strictly increasing, and every created nested type is recorded under
/// its declaring type.
pub open spec fn attached(reg: TypeRegistry, md: Metadata) -> bool {
    &&& forall|p: int, j: int|
        0 <= p < reg.defs@.len() && reg.defs@[p] is Some && 0 <= j
            < reg.defs@[p]->Some_0.children@.len() ==> {
            let c = (#[trigger] reg.defs@[p]->Some_0.children@[j]) as int;
            &&& 0 <= c < reg.defs@.len()
            &&& reg.defs@[c] is Some
            &&& reg.defs@[c]->Some_0.parent == Some(p as u32)
        }
    &&& forall|p: int, j1: int, j2: int|
        0 <= p < reg.defs@.len() && reg.defs@[p] is Some && 0 <= j1 < j2
            < reg.defs@[p]->Some_0.children@.len()
            ==> (#[trigger] reg.defs@[p]->Some_0.children@[j1])
                < (#[trigger] reg.defs@[p]->Some_0.children@[j2])
    &&& forall|t: int|
        0 <= t < reg.defs@.len() && (#[trigger] reg.defs@[t]) is Some
            && reg.defs@[t]->Some_0.parent is Some ==> {
            let p = reg.defs@[t]->Some_0.parent->Some_0 as int;
            &&& 0 <= p < reg.defs@.len()
            &&& reg.defs@[p] is Some
            &&& exists|j: int|
                0 <= j < reg.defs@[p]->Some_0.children@.len()
                    && (#[trigger] reg.defs@[p]->Some_0.children@[j]) == t as u32
        }
}

/// Checks that every created nested type's declaring slot is filled:
/// pass 2 is exhaustive, so an empty slot is the fatal
/// missing-enclosing inconsistency.
fn validate_parents(reg: &TypeRegistry, len: usize) -> (r: Result<(), CodegenError>)
    requires
        len == reg.defs@.len(),
        len < 0xffffffff,
    ensures
        r is Ok <==> (forall|u: int|
            0 <= u < len && (#[trigger] reg.defs@[u]) is Some
                && reg.defs@[u]->Some_0.parent is Some ==> {
                let q = reg.defs@[u]->Some_0.parent->Some_0 as int;
                0 <= q < len && reg.defs@[q] is Some
            }),
        r matches Err(CodegenError::MalformedTypeIndex { tdi }) ==> ((tdi as int) < len
            && reg.defs@[tdi as int] is Some && reg.defs@[tdi as int]->Some_0.parent is Some && !((
        reg.defs@[tdi as int]->Some_0.parent->Some_0 as int) < len)),
        r matches Err(CodegenError::MissingEnclosing { tdi }) ==> ((tdi as int) < len
            && reg.defs@[tdi as int] is Some && reg.defs@[tdi as int]->Some_0.parent is Some && (
        reg.defs@[tdi as int]->Some_0.parent->Some_0 as int) < len
            && reg.defs@[reg.defs@[tdi as int]->Some_0.parent->Some_0 as int] is None),
        r is Err ==> (r matches Err(CodegenError::MalformedTypeIndex { .. }) || r matches Err(
            CodegenError::MissingEnclosing { .. },
        )),
{
    let mut t: usize = 0;
    while t < len
        invariant
            len == reg.defs@.len(),
            len < 0xffffffff,
            0 <= t <= len,
            forall|u: int|
                0 <= u < t && (#[trigger] reg.defs@[u]) is Some
                    && reg.defs@[u]->Some_0.parent is Some ==> {
                    let q = reg.defs@[u]->Some_0.parent->Some_0 as int;
                    0 <= q < len && reg.defs@[q] is Some
                },
        decreases len - t,
    {
        let parent: Option<u32> = match &reg.defs[t] {
            Some(e) => e.parent,
            None => None,
        };
        if let Some(pv) = parent {
            if (pv as usize) >= len {
                return Err(CodegenError::MalformedTypeIndex { tdi: t as u32 });
            }
            if !reg.defs[pv as usize].is_some() {
                return Err(CodegenError::MissingEnclosing { tdi: t as u32 });
            }
        }
        t += 1;
    }
    Ok(())
}

/// Gathers, in table order, every created type whose declaring type is
/// `p`: the child list `p`'s declaration records.
fn collect_children(reg: &TypeRegistry, p: usize, len: usize) -> (c: Vec<u32>)
    requires
        len == reg.defs@.len(),
        len < 0xffffffff,
        p < len,
    ensures
        forall|j: int|
            0 <= j < c@.len() ==> {
                let w = (#[trigger] c@[j]) as int;
                &&& 0 <= w < len
                &&& reg.defs@[w] is Some
                &&& reg.defs@[w]->Some_0.parent == Some(p as u32)
            },
        forall|j1: int, j2: int|
            0 <= j1 < j2 < c@.len() ==> (#[trigger] c@[j1]) < (#[trigger] c@[j2]),
        forall|w: int|
            0 <= w < len && (#[trigger] reg.defs@[w]) is Some && reg.defs@[w]->Some_0.parent
                == Some(p as u32) ==> exists|j: int|
                0 <= j < c@.len() && (#[trigger] c@[j]) == w as u32,
{
    let mut c: Vec<u32> = Vec::new();
    let mut u: usize = 0;
    while u < len
        invariant
            len == reg.defs@.len(),
            len < 0xffffffff,
            p < len,
            0 <= u <= len,
            forall|j: int|
                0 <= j < c@.len() ==> {
                    let w = (#[trigger] c@[j]) as int;
                    &&& 0 <= w < u
                    &&& reg.defs@[w] is Some
                    &&& reg.defs@[w]->Some_0.parent == Some(p as u32)
                },
            forall|j1: int, j2: int|
                0 <= j1 < j2 < c@.len() ==> (#[trigger] c@[j1]) < (#[trigger] c@[j2]),
            forall|w: int|
                0 <= w < u && (#[trigger] reg.defs@[w]) is Some && reg.defs@[w]->Some_0.parent
                    == Some(p as u32) ==> exists|j: int|
                    0 <= j < c@.len() && (#[trigger] c@[j]) == w as u32,
        decreases len - u,
    {
        let pr: Option<u32> = match &reg.defs[u] {
            Some(e) => e.parent,
            None => None,
        };
        if let Some(q) = pr {
            if (q as usize) == p {
                let ghost cpre = c@;
                c.push(u as u32);
                proof {
                    assert(c@[c@.len() - 1] == u as u32);
                    assert forall|w: int|
                        0 <= w < u && (#[trigger] reg.defs@[w]) is Some
                            && reg.defs@[w]->Some_0.parent == Some(p as u32) implies exists|j: int|
                        0 <= j < c@.len() && (#[trigger] c@[j]) == w as u32 by {
                        let j0 = choose|j: int|
                            0 <= j < cpre.len() && (#[trigger] cpre[j]) == w as u32;
                        assert(c@[j0] == w as u32);
                    }
                }
            }
        }
        u += 1;
    }
    c
}

/// The attachment step: records every created nested type in its
/// declaring type's child list, in table order. A created nested type
/// whose declaring slot is empty means pass 2 was not exhaustive: the
/// fatal missing-enclosing error.
#[verifier::rlimit(80)]
pub fn attach_nested(reg: &mut TypeRegistry, md: &Metadata) -> (r: Result<(), CodegenError>)
    requires
        md.wf(),
        old(reg).defs@.len() == md.type_defs@.len(),
        forall|t: int|
            0 <= t < old(reg).defs@.len() && (#[trigger] old(reg).defs@[t]) is Some ==> old(
                reg,
            ).defs@[t]->Some_0.children@.len() == 0,
    ensures
        final(reg).insts@ == old(reg).insts@,
        final(reg).defs@.len() == old(reg).defs@.len(),
        forall|t: int|
            0 <= t < old(reg).defs@.len() ==> ((#[trigger] final(reg).defs@[t]) is Some <==> old(
                reg,
            ).defs@[t] is Some),
        forall|t: int|
            0 <= t < old(reg).defs@.len() && old(reg).defs@[t] is Some ==> {
                let e0 = old(reg).defs@[t]->Some_0;
                let e1 = (#[trigger] final(reg).defs@[t])->Some_0;
                e1.decl == e0.decl && e1.parent == e0.parent && e1.root == e0.root && e1.context
                    == e0.context
            },
        r is Ok ==> attached(*final(reg), *md),
        r is Ok <==> (forall|t: int|
            0 <= t < old(reg).defs@.len() && (#[trigger] old(reg).defs@[t]) is Some && old(
                reg,
            ).defs@[t]->Some_0.parent is Some ==> {
                let q = old(reg).defs@[t]->Some_0.parent->Some_0 as int;
                0 <= q < old(reg).defs@.len() && old(reg).defs@[q] is Some
            }),
        r is Err ==> (r matches Err(CodegenError::MalformedTypeIndex { .. }) || r matches Err(
            CodegenError::MissingEnclosing { .. },
        )),
{
    let len: usize = reg.defs.len();
    proof {
        assert(md.type_defs@.len() < DECLARING_NONE);
        assert(len < 0xffffffff);
    }
    match validate_parents(reg, len) {
        Err(e) => {
            return Err(e);
        },
        Ok(()) => {},
    }
    let mut p: usize = 0;
    while p < len
        invariant
            md.wf(),
            len == reg.defs@.len(),
            len < 0xffffffff,
            reg.defs@.len() == old(reg).defs@.len(),
            reg.insts@ == old(reg).insts@,
            0 <= p <= len,
            forall|u: int|
                0 <= u < len ==> ((#[trigger] reg.defs@[u]) is Some <==> old(reg).defs@[u] is Some),
            forall|u: int|
                0 <= u < len && old(reg).defs@[u] is Some ==> {
                    let e0 = old(reg).defs@[u]->Some_0;
                    let e1 = (#[trigger] reg.defs@[u])->Some_0;
                    e1.decl == e0.decl && e1.parent == e0.parent && e1.root == e0.root
                        && e1.context == e0.context
                },
            forall|u: int|
                0 <= u < len && (#[trigger] reg.defs@[u]) is Some
                    && reg.defs@[u]->Some_0.parent is Some ==> {
                    let q = reg.defs@[u]->Some_0.parent->Some_0 as int;
                    0 <= q < len && reg.defs@[q] is Some
                },
            forall|q: int, j: int|
                0 <= q < p && reg.defs@[q] is Some && 0 <= j
                    < reg.defs@[q]->Some_0.children@.len() ==> {
                    let c = (#[trigger] reg.defs@[q]->Some_0.children@[j]) as int;
                    &&& 0 <= c < len
                    &&& reg.defs@[c] is Some
                    &&& reg.defs@[c]->Some_0.parent == Some(q as u32)
                },
            forall|q: int, j1: int, j2: int|
                0 <= q < p && reg.defs@[q] is Some && 0 <= j1 < j2
                    < reg.defs@[q]->Some_0.children@.len() ==> (
                #[trigger] reg.defs@[q]->Some_0.children@[j1]) < (
                #[trigger] reg.defs@[q]->Some_0.children@[j2]),
            forall|q: int, u: int|
                0 <= q < p && 0 <= u < len && (#[trigger] reg.defs@[q]) is Some
                    && (#[trigger] reg.defs@[u]) is Some && reg.defs@[u]->Some_0.parent == Some(
                    q as u32,
                ) ==> exists|j: int|
                    0 <= j < reg.defs@[q]->Some_0.children@.len()
                        && (#[trigger] reg.defs@[q]->Some_0.children@[j]) == u as u32,
            forall|q: int|
                p <= q < len && (#[trigger] reg.defs@[q]) is Some
                    ==> reg.defs@[q]->Some_0.children@.len() == 0,
        decreases len - p,
    {
        if reg.defs[p].is_some() {
            let collected = collect_children(reg, p, len);
            let ghost prev = reg.defs@;
            if let Some(pe) = &mut reg.defs[p] {
                pe.children = collected;
            }
            proof {
                let pl = p as int;
                assert forall|x: int| 0 <= x < len && x != pl implies reg.defs@[x] == prev[x] by {}
                assert(reg.defs@[pl] is Some && prev[pl] is Some);
                assert(reg.defs@[pl]->Some_0.parent == prev[pl]->Some_0.parent);
                assert forall|q: int, u: int|
                    0 <= q < pl + 1 && 0 <= u < len && (#[trigger] reg.defs@[q]) is Some && (
                    #[trigger] reg.defs@[u]) is Some && reg.defs@[u]->Some_0.parent == Some(
                        q as u32,
                    ) implies exists|j: int|
                    0 <= j < reg.defs@[q]->Some_0.children@.len()
                        && (#[trigger] reg.defs@[q]->Some_0.children@[j]) == u as u32 by {
                    if q == pl {
                        let j = choose|j: int|
                            0 <= j < reg.defs@[pl]->Some_0.children@.len()
                                && (#[trigger] reg.defs@[pl]->Some_0.children@[j]) == u as u32;
                    } else {
                        let j0 = choose|j: int|
                            0 <= j < prev[q]->Some_0.children@.len()
                                && (#[trigger] prev[q]->Some_0.children@[j]) == u as u32;
                        assert(reg.defs@[q]->Some_0.children@[j0] == u as u32);
                    }
                }
            }
        }
        p += 1;
    }
    proof {
        assert(attached(*reg, *md));
    }
    Ok(())
}

/// Whether two instantiations collide: the same synthesized namespace
/// and name.
pub open spec fn inst_same_identity(a: InstEntry, b: InstEntry) -> bool {
    a.decl.namespace@ == b.decl.namespace@ && a.decl.name@ == b.decl.name@
}

impl TypeRegistry {
    /// No two registered instantiations share a synthesized identity.
    pub open spec fn wf_insts(self) -> bool {
        forall|i: int, j: int|
            0 <= i < j < self.insts@.len() ==> !inst_same_identity(
                #[trigger] self.insts@[i],
                #[trigger] self.insts@[j],
            )
    }

    /// Registers an instantiation unless one of the same synthesized
    /// identity is already present; a duplicate is a no-op, never an
    /// overwrite.
    pub fn insert_instantiation(&mut self, e: InstEntry) -> (added: bool)
        requires
            old(self).wf_insts(),
        ensures
            final(self).wf_insts(),
            final(self).defs@ == old(self).defs@,
            added == !(exists|i: int|
                0 <= i < old(self).insts@.len() && inst_same_identity(
                    #[trigger] old(self).insts@[i],
                    e,
                )),
            added ==> final(self).insts@ == old(self).insts@.push(e),
            !added ==> final(self).insts@ == old(self).insts@,
    {
        let mut i: usize = 0;
        while i < self.insts.len()
            invariant
                *self == *old(self),
                old(self).wf_insts(),
                0 <= i <= self.insts@.len(),
                forall|k: int|
                    0 <= k < i ==> !inst_same_identity(#[trigger] old(self).insts@[k], e),
            decreases self.insts@.len() - i,
        {
            let cur = &self.insts[i];
            if crate::strutil::str_eq(cur.decl.namespace.as_str(), e.decl.namespace.as_str())
                && crate::strutil::str_eq(cur.decl.name.as_str(), e.decl.name.as_str()) {
                proof {
                    assert(inst_same_identity(old(self).insts@[i as int], e));
                    assert(self.insts@ == old(self).insts@);
                }
                return false;
            }
            i += 1;
        }
        self.insts.push(e);
        true
    }
}

/// Uniqueness: every registered instantiation's (namespace, name,
/// template-argument-list) tuple is unique within the registry; two
/// distinct entries never share one.
pub proof fn lemma_instantiation_identity_unique(reg: TypeRegistry)
    requires
        reg.wf_insts(),
    ensures
        forall|i: int, j: int|
            0 <= i < j < reg.insts@.len() ==> !((#[trigger] reg.insts@[i]).decl.namespace@ == (
            #[trigger] reg.insts@[j]).decl.namespace@ && reg.insts@[i].decl.name@
                == reg.insts@[j].decl.name@ && str_seqs_eq(
                reg.insts@[i].args@,
                reg.insts@[j].args@,
            )),
{
}

/// Nesting completeness: a created nested type appears as a recorded
/// child of exactly one declaration, its declaring type, and its
/// declaration carries its root ancestor's namespace.
pub proof fn lemma_nesting_completeness(reg: TypeRegistry, md: Metadata, t: int)
    requires
        md.wf(),
        attached(reg, md),
        reg.defs@.len() == md.type_defs@.len(),
        0 <= t < md.type_defs@.len(),
        md.type_defs@[t].declaring_index != DECLARING_NONE,
        reg.defs@[t] is Some,
        nested_entry_ok(reg.defs@[t]->Some_0, md, t),
    ensures
        ({
            let p = reg.defs@[t]->Some_0.parent->Some_0 as int;
            &&& reg.defs@[t]->Some_0.parent == Some(md.type_defs@[t].declaring_index)
            &&& 0 <= p < reg.defs@.len()
            &&& reg.defs@[p] is Some
            &&& exists|j: int|
                0 <= j < reg.defs@[p]->Some_0.children@.len()
                    && (#[trigger] reg.defs@[p]->Some_0.children@[j]) == t as u32
            &&& forall|q: int, j: int|
                0 <= q < reg.defs@.len() && reg.defs@[q] is Some && 0 <= j
                    < reg.defs@[q]->Some_0.children@.len()
                    && (#[trigger] reg.defs@[q]->Some_0.children@[j]) == t as u32 ==> q == p
            &&& reg.defs@[t]->Some_0.decl.namespace@ == md.type_defs@[root_of(
                md,
                t,
            )->Some_0].namespace@
        }),
{
    let p = reg.defs@[t]->Some_0.parent->Some_0 as int;
    assert forall|q: int, j: int|
        0 <= q < reg.defs@.len() && reg.defs@[q] is Some && 0 <= j
            < reg.defs@[q]->Some_0.children@.len()
            && (#[trigger] reg.defs@[q]->Some_0.children@[j]) == t as u32 implies q == p by {
        let c = reg.defs@[q]->Some_0.children@[j] as int;
        assert(c == t);
        assert(reg.defs@[t]->Some_0.parent == Some(q as u32));
    }
}

} // verus!
