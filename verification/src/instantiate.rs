//! The generic instantiation engine: materializes, in metadata table
//! order, one concrete declaration per generic-class instantiation the
//! binary actually uses, substituting template parameters with concrete
//! argument strings. The whole run is one pure function of the tables,
//! so two runs over the same tables synthesize identical declarations.
use vstd::prelude::*;

use crate::cpp_type::CppType;
use crate::errors::CodegenError;
use crate::members::CppFieldDecl;
use crate::metadata::Metadata;
use crate::registry::{inst_same_identity, DefEntry, InstEntry, TypeRegistry};
use crate::strutil::{clone_strings, join_rep, views_of};

verus! {

/// The observable content of one field, as pure values.
pub struct FieldView {
    pub name: Seq<char>,
    pub ty: Seq<char>,
    pub offset: u32,
    pub instance: bool,
    pub readonly: bool,
    pub classof: Seq<char>,
    pub literal: Option<Seq<char>>,
    pub is_value_type: bool,
    pub declaring_is_reference: bool,
}

/// The observable content of one declaration, as pure values.
pub struct DeclView {
    pub namespace: Seq<char>,
    pub name: Seq<char>,
    pub is_value_type: bool,
    pub fields: Seq<FieldView>,
}

/// One generic-instantiation row, as pure values.
pub struct RowView {
    pub method_index: int,
    pub args: Seq<Seq<char>>,
}

/// One synthesized instantiation, as pure values.
pub struct InstSpec {
    pub tdi: int,
    pub args: Seq<Seq<char>>,
    pub decl: DeclView,
}

pub open spec fn field_view(f: CppFieldDecl) -> FieldView {
    FieldView {
        name: f.name@,
        ty: f.ty@,
        offset: f.offset,
        instance: f.instance,
        readonly: f.readonly,
        classof: f.classof_call@,
        literal: match f.literal_value {
            Some(v) => Some(v@),
            None => None,
        },
        is_value_type: f.is_value_type,
        declaring_is_reference: f.declaring_is_reference,
    }
}

pub open spec fn decl_view(t: CppType) -> DeclView {
    DeclView {
        namespace: t.namespace@,
        name: t.name@,
        is_value_type: t.is_value_type,
        fields: Seq::new(t.fields@.len(), |k: int| field_view(t.fields@[k])),
    }
}

/// The instantiation rows, as pure values.
pub open spec fn rows_view(md: Metadata) -> Seq<RowView> {
    Seq::new(
        md.generic_insts@.len(),
        |i: int|
            RowView {
                method_index: md.generic_insts@[i].method_index as int,
                args: views_of(md.generic_insts@[i].type_args@),
            },
    )
}

/// Each method's owning type index, as pure values.
pub open spec fn owners_view(md: Metadata) -> Seq<int> {
    Seq::new(md.methods@.len(), |i: int| md.methods@[i].owner as int)
}

/// Each type's template parameter names, as pure values.
pub open spec fn gps_view(md: Metadata) -> Seq<Seq<Seq<char>>> {
    Seq::new(md.type_defs@.len(), |i: int| views_of(md.type_defs@[i].generic_params@))
}

/// The declarations the registry holds, as pure values.
pub open spec fn defs_view(defs: Seq<Option<DefEntry>>) -> Seq<Option<DeclView>> {
    Seq::new(
        defs.len(),
        |i: int|
            match defs[i] {
                Some(e) => Some(decl_view(e.decl)),
                None => None,
            },
    )
}

/// Whether a character can sit inside an identifier token: letters,
/// digits, underscore, or the arity backtick of managed type names.
pub open spec fn ident_char(c: char) -> bool {
    let d = c as int;
    (97 <= d <= 122) || (65 <= d <= 90) || (48 <= d <= 57) || d == 95 || d == 96
}

/// Every whole-token occurrence of `pat` in `s` replaced by `rep`:
/// a match counts only when the character before it (tracked in
/// `prev_ident`) and the character after it are no identifier
/// characters, so a parameter `T` never rewrites the `T` inside
/// `Transform`.
pub open spec fn subst_occ(s: Seq<char>, pat: Seq<char>, rep: Seq<char>, prev_ident: bool) -> Seq<
    char,
>
    decreases s.len(),
{
    if s.len() == 0 {
        Seq::empty()
    } else if !prev_ident && pat.len() >= 1 && s.len() >= pat.len() && s.take(pat.len() as int)
        == pat && (s.len() == pat.len() || !ident_char(s[pat.len() as int])) {
        rep + subst_occ(s.skip(pat.len() as int), pat, rep, ident_char(pat[pat.len() - 1]))
    } else {
        seq![s[0]] + subst_occ(s.skip(1), pat, rep, ident_char(s[0]))
    }
}

/// The parameters applied in table order, each rewriting every
/// whole-token occurrence in the result of the previous one.
pub open spec fn subst_all(ty: Seq<char>, params: Seq<Seq<char>>, args: Seq<Seq<char>>, k: int) -> Seq<char>
    decreases params.len() - k,
{
    if !(0 <= k < params.len()) {
        ty
    } else {
        subst_all(subst_occ(ty, params[k], args[k], false), params, args, k + 1)
    }
}

/// Each template-parameter occurrence substituted by its concrete
/// argument string.
pub open spec fn subst_ty(ty: Seq<char>, params: Seq<Seq<char>>, args: Seq<Seq<char>>) -> Seq<char> {
    subst_all(ty, params, args, 0)
}

/// A field with its type substituted; everything else, the offset above
/// all, carried unchanged.
pub open spec fn subst_field(f: FieldView, params: Seq<Seq<char>>, args: Seq<Seq<char>>) -> FieldView {
    FieldView { ty: subst_ty(f.ty, params, args), ..f }
}

/// The synthesized name of an instantiation.
pub open spec fn synth_name(base: Seq<char>, args: Seq<Seq<char>>) -> Seq<char> {
    base + "<"@ + join_rep(args, ", "@) + ">"@
}

/// The declaration synthesized for one instantiation.
pub open spec fn make_inst_spec(
    o: int,
    args: Seq<Seq<char>>,
    params: Seq<Seq<char>>,
    base: DeclView,
) -> InstSpec {
    InstSpec {
        tdi: o,
        args,
        decl: DeclView {
            namespace: base.namespace,
            name: synth_name(base.name, args),
            is_value_type: base.is_value_type,
            fields: Seq::new(base.fields.len(), |k: int| subst_field(base.fields[k], params, args)),
        },
    }
}

/// The whole engine over the first `n` rows, as a pure function: each
/// row resolves its owning declaration, an unresolved row is skipped, a
/// row whose argument count contradicts the owner's parameter list is
/// the fatal mismatch (`None`), and a row synthesizing an identity
/// already present is skipped, never regenerated.
pub open spec fn spec_engine(
    rows: Seq<RowView>,
    owners: Seq<int>,
    gps: Seq<Seq<Seq<char>>>,
    decls: Seq<Option<DeclView>>,
    n: int,
) -> Option<Seq<InstSpec>>
    decreases n,
{
    if n <= 0 {
        Some(Seq::empty())
    } else {
        match spec_engine(rows, owners, gps, decls, n - 1) {
            None => None,
            Some(prev) => {
                let row = rows[n - 1];
                if !(0 <= row.method_index < owners.len()) {
                    Some(prev)
                } else {
                    let o = owners[row.method_index];
                    if !(0 <= o < decls.len() && 0 <= o < gps.len()) {
                        Some(prev)
                    } else if decls[o] is None {
                        Some(prev)
                    } else if row.args.len() == 0 {
                        Some(prev)
                    } else if row.args.len() != gps[o].len() {
                        None
                    } else {
                        let is = make_inst_spec(o, row.args, gps[o], decls[o]->Some_0);
                        if exists|i: int|
                            0 <= i < prev.len() && (#[trigger] prev[i]).decl.namespace
                                == is.decl.namespace && prev[i].decl.name == is.decl.name {
                            Some(prev)
                        } else {
                            Some(prev.push(is))
                        }
                    }
                }
            },
        }
    }
}

/// Once the engine hits the fatal mismatch, every longer run stays
/// fatal: `None` propagates through the fold.
proof fn lemma_engine_none_persists(
    rows: Seq<RowView>,
    owners: Seq<int>,
    gps: Seq<Seq<Seq<char>>>,
    decls: Seq<Option<DeclView>>,
    m: int,
    n: int,
)
    requires
        0 <= m <= n,
        spec_engine(rows, owners, gps, decls, m) is None,
    ensures
        spec_engine(rows, owners, gps, decls, n) is None,
    decreases n - m,
{
    if n > m {
        lemma_engine_none_persists(rows, owners, gps, decls, m, n - 1);
    }
}

/// How many of the first `n` rows the engine skips as unresolved: a
/// method index outside the table, an owner without a created
/// declaration, or a row with no class arguments to instantiate.
pub open spec fn spec_skip_count(
    rows: Seq<RowView>,
    owners: Seq<int>,
    gps: Seq<Seq<Seq<char>>>,
    decls: Seq<Option<DeclView>>,
    n: int,
) -> int
    decreases n,
{
    if n <= 0 {
        0
    } else {
        let prev = spec_skip_count(rows, owners, gps, decls, n - 1);
        match spec_engine(rows, owners, gps, decls, n - 1) {
            None => prev,
            Some(prevseq) => {
                let row = rows[n - 1];
                if !(0 <= row.method_index < owners.len()) {
                    prev + 1
                } else {
                    let o = owners[row.method_index];
                    if !(0 <= o < decls.len() && 0 <= o < gps.len()) {
                        prev + 1
                    } else if decls[o] is None {
                        prev + 1
                    } else if row.args.len() == 0 {
                        prev + 1
                    } else {
                        prev
                    }
                }
            },
        }
    }
}

/// How many of the first `n` rows the engine skips as duplicates: rows
/// whose synthesized identity is already registered.
pub open spec fn spec_dup_count(
    rows: Seq<RowView>,
    owners: Seq<int>,
    gps: Seq<Seq<Seq<char>>>,
    decls: Seq<Option<DeclView>>,
    n: int,
) -> int
    decreases n,
{
    if n <= 0 {
        0
    } else {
        let prev = spec_dup_count(rows, owners, gps, decls, n - 1);
        match spec_engine(rows, owners, gps, decls, n - 1) {
            None => prev,
            Some(prevseq) => {
                let row = rows[n - 1];
                if !(0 <= row.method_index < owners.len()) {
                    prev
                } else {
                    let o = owners[row.method_index];
                    if !(0 <= o < decls.len() && 0 <= o < gps.len()) {
                        prev
                    } else if decls[o] is None {
                        prev
                    } else if row.args.len() == 0 {
                        prev
                    } else if row.args.len() != gps[o].len() {
                        prev
                    } else {
                        let is = make_inst_spec(o, row.args, gps[o], decls[o]->Some_0);
                        if exists|i: int|
                            0 <= i < prevseq.len() && (#[trigger] prevseq[i]).decl.namespace
                                == is.decl.namespace && prevseq[i].decl.name == is.decl.name {
                            prev + 1
                        } else {
                            prev
                        }
                    }
                }
            },
        }
    }
}

/// Whether a registered instantiation carries exactly the synthesized
/// content: identity, argument list and substituted member shape.
pub open spec fn inst_matches(e: InstEntry, is: InstSpec) -> bool {
    &&& e.tdi as int == is.tdi
    &&& views_of(e.args@) == is.args
    &&& decl_view(e.decl) == is.decl
    &&& (e.decl.generic_instantiation_args matches Some(a) && views_of(a@) == is.args)
    &&& e.decl.cpp_template is None
    &&& !e.decl.nested
}

/// The run summary: how many instantiations were synthesized, skipped
/// as unresolved, or skipped as duplicates.
#[derive(Clone, Copy, Debug, PartialEq, Eq, Structural)]
pub struct InstantiationStats {
    pub created: usize,
    pub skipped: usize,
    pub duplicates: usize,
}

/// Decides `ident_char`.
fn is_ident_char(c: char) -> (r: bool)
    ensures
        r == ident_char(c),
{
    let d = c as u32;
    (97 <= d && d <= 122) || (65 <= d && d <= 90) || (48 <= d && d <= 57) || d == 95 || d == 96
}

/// With an empty pattern, occurrence substitution copies the string.
proof fn lemma_subst_occ_empty_pat(s: Seq<char>, rep: Seq<char>, prev: bool)
    ensures
        subst_occ(s, Seq::empty(), rep, prev) == s,
    decreases s.len(),
{
    if s.len() > 0 {
        lemma_subst_occ_empty_pat(s.skip(1), rep, ident_char(s[0]));
        assert(seq![s[0]] + s.skip(1) =~= s);
    }
}

/// Rewrites every whole-token occurrence of `pat` in `s` to `rep`.
fn replace_occurrences(s: &String, pat: &String, rep: &String) -> (r: String)
    ensures
        r@ == subst_occ(s@, pat@, rep@, false),
{
    let s_len = s.as_str().unicode_len();
    let pat_len = pat.as_str().unicode_len();
    if pat_len == 0 {
        proof {
            assert(pat@ =~= Seq::<char>::empty());
            lemma_subst_occ_empty_pat(s@, rep@, false);
        }
        return s.clone();
    }
    let mut r = String::new();
    let mut i: usize = 0;
    let mut prev: bool = false;
    proof {
        assert(s@.skip(0) =~= s@);
        assert(r@ + subst_occ(s@.skip(0), pat@, rep@, false) =~= subst_occ(s@, pat@, rep@, false));
    }
    while i < s_len
        invariant
            s_len == s@.len(),
            pat_len == pat@.len(),
            pat_len >= 1,
            0 <= i <= s_len,
            r@ + subst_occ(s@.skip(i as int), pat@, rep@, prev) == subst_occ(
                s@,
                pat@,
                rep@,
                false,
            ),
        decreases s_len - i,
    {
        let ghost rest = s@.skip(i as int);
        let mut hit: bool = !prev && pat_len <= s_len && i <= s_len - pat_len;
        if hit {
            hit = crate::strutil::match_at(s.as_str(), pat.as_str(), i, s_len, pat_len);
        }
        if hit && i + pat_len < s_len {
            hit = !is_ident_char(s.as_str().get_char(i + pat_len));
        }
        if hit {
            proof {
                assert(rest.take(pat@.len() as int) =~= s@.subrange(
                    i as int,
                    i + pat@.len(),
                ));
                assert(rest.len() == pat@.len() || rest[pat@.len() as int] == s@[i + pat@.len()]);
                assert(rest.skip(pat@.len() as int) =~= s@.skip(i + pat@.len()));
            }
            r.append(rep.as_str());
            i += pat_len;
            prev = is_ident_char(pat.as_str().get_char(pat_len - 1));
        } else {
            proof {
                assert(rest[0] == s@[i as int]);
                assert(rest.skip(1) =~= s@.skip(i + 1));
                if i + pat_len <= s_len {
                    assert(rest.take(pat@.len() as int) =~= s@.subrange(
                        i as int,
                        i + pat@.len(),
                    ));
                    if i + pat_len < s_len {
                        assert(rest[pat@.len() as int] == s@[i + pat@.len()]);
                    }
                }
            }
            let c = s.as_str().substring_char(i, i + 1);
            proof {
                assert(c@ =~= seq![s@[i as int]]);
            }
            r.append(c);
            prev = is_ident_char(s.as_str().get_char(i));
            i += 1;
        }
    }
    proof {
        assert(s@.skip(s@.len() as int) =~= Seq::<char>::empty());
        assert(r@ =~= r@ + subst_occ(s@.skip(s@.len() as int), pat@, rep@, prev));
    }
    r
}

/// Substitutes every whole-token occurrence of each template parameter
/// name by its concrete argument, in table order.
fn subst_type(ty: &String, params: &Vec<String>, args: &Vec<String>) -> (r: String)
    requires
        params@.len() == args@.len(),
    ensures
        r@ == subst_ty(ty@, views_of(params@), views_of(args@)),
{
    let ghost pv = views_of(params@);
    let ghost av = views_of(args@);
    let mut cur: String = ty.clone();
    let mut k: usize = 0;
    while k < params.len()
        invariant
            params@.len() == args@.len(),
            pv == views_of(params@),
            av == views_of(args@),
            0 <= k <= params@.len(),
            subst_all(ty@, pv, av, 0) == subst_all(cur@, pv, av, k as int),
        decreases params@.len() - k,
    {
        let next = replace_occurrences(&cur, &params[k], &args[k]);
        proof {
            assert(next@ == subst_occ(cur@, pv[k as int], av[k as int], false));
        }
        cur = next;
        k += 1;
    }
    cur
}

/// Materializes every generic-class instantiation the binary uses, in
/// table order, registering each synthesized declaration under its new
/// identity. Two runs over the same tables produce the same result: the
/// outcome is `spec_engine` of the tables alone.
pub fn fill_generic_class_instantiations(reg: &mut TypeRegistry, md: &Metadata) -> (r: Result<
    InstantiationStats,
    CodegenError,
>)
    requires
        md.wf(),
        old(reg).defs@.len() == md.type_defs@.len(),
        old(reg).insts@.len() == 0,
    ensures
        final(reg).defs@ == old(reg).defs@,
        final(reg).wf_insts(),
        match r {
            Ok(stats) => {
                &&& spec_engine(
                    rows_view(*md),
                    owners_view(*md),
                    gps_view(*md),
                    defs_view(old(reg).defs@),
                    md.generic_insts@.len() as int,
                ) matches Some(s) && final(reg).insts@.len() == s.len() && (forall|j: int|
                    0 <= j < s.len() ==> inst_matches(#[trigger] final(reg).insts@[j], s[j]))
                &&& stats.created == final(reg).insts@.len()
                &&& stats.skipped as int == spec_skip_count(
                    rows_view(*md),
                    owners_view(*md),
                    gps_view(*md),
                    defs_view(old(reg).defs@),
                    md.generic_insts@.len() as int,
                )
                &&& stats.duplicates as int == spec_dup_count(
                    rows_view(*md),
                    owners_view(*md),
                    gps_view(*md),
                    defs_view(old(reg).defs@),
                    md.generic_insts@.len() as int,
                )
                &&& stats.created + stats.skipped + stats.duplicates <= md.generic_insts@.len()
            },
            Err(e) => {
                &&& spec_engine(
                    rows_view(*md),
                    owners_view(*md),
                    gps_view(*md),
                    defs_view(old(reg).defs@),
                    md.generic_insts@.len() as int,
                ) is None
                &&& e matches CodegenError::TemplateArgMismatch { .. }
            },
        },
{
    let ghost rows = rows_view(*md);
    let ghost owners = owners_view(*md);
    let ghost gps = gps_view(*md);
    let ghost decls = defs_view(old(reg).defs@);
    let mut created: usize = 0;
    let mut skipped: usize = 0;
    let mut duplicates: usize = 0;
    let mut i: usize = 0;
    while i < md.generic_insts.len()
        invariant
            md.wf(),
            rows == rows_view(*md),
            owners == owners_view(*md),
            gps == gps_view(*md),
            decls == defs_view(old(reg).defs@),
            reg.defs@ == old(reg).defs@,
            reg.defs@.len() == md.type_defs@.len(),
            reg.wf_insts(),
            0 <= i <= md.generic_insts@.len(),
            created == reg.insts@.len(),
            created + skipped + duplicates <= i,
            skipped as int == spec_skip_count(rows, owners, gps, decls, i as int),
            duplicates as int == spec_dup_count(rows, owners, gps, decls, i as int),
            spec_engine(rows, owners, gps, decls, i as int) matches Some(s)
                && reg.insts@.len() == s.len() && (forall|j: int|
                0 <= j < s.len() ==> inst_matches(#[trigger] reg.insts@[j], s[j])),
        decreases md.generic_insts@.len() - i,
    {
        let ghost s_prev = spec_engine(rows, owners, gps, decls, i as int)->Some_0;
        let row = &md.generic_insts[i];
        proof {
            assert(rows[i as int].method_index == row.method_index as int);
            assert(rows[i as int].args == views_of(row.type_args@));
        }
        let mi = row.method_index as usize;
        if mi >= md.methods.len() {
            skipped += 1;
        } else {
            let o = md.methods[mi].owner;
            proof {
                assert(owners[row.method_index as int] == o as int);
                assert((o as int) < md.type_defs@.len());
                assert(decls[o as int] == (match reg.defs@[o as int] {
                    Some(e) => Some(decl_view(e.decl)),
                    None => None,
                }));
            }
            let mut pending: Option<InstEntry> = None;
            match &reg.defs[o as usize] {
                None => {
                    skipped += 1;
                },
                Some(e) => {
                    if row.type_args.len() == 0 {
                        skipped += 1;
                    } else {
                        let td = &md.type_defs[o as usize];
                        proof {
                            assert(gps[o as int] == views_of(td.generic_params@));
                        }
                        if row.type_args.len() != td.generic_params.len() {
                            proof {
                                assert(spec_engine(rows, owners, gps, decls, i + 1) is None);
                                lemma_engine_none_persists(
                                    rows,
                                    owners,
                                    gps,
                                    decls,
                                    i + 1,
                                    md.generic_insts@.len() as int,
                                );
                            }
                            return Err(
                                CodegenError::TemplateArgMismatch {
                                    expected: td.generic_params.len(),
                                    got: row.type_args.len(),
                                },
                            );
                        }
                        let base = &e.decl;
                        let name2 = base.name.clone().concat("<").concat(
                            crate::strutil::join_strings(&row.type_args, ", ").as_str(),
                        ).concat(">");
                        proof {
                            assert(name2@ =~= synth_name(base.name@, views_of(row.type_args@)));
                        }
                        let mut new_fields: Vec<CppFieldDecl> = Vec::new();
                        let mut k: usize = 0;
                        while k < base.fields.len()
                            invariant
                                base == &reg.defs@[o as int]->Some_0.decl,
                                reg.defs@[o as int] is Some,
                                row.type_args@.len() == td.generic_params@.len(),
                                0 <= k <= base.fields@.len(),
                                new_fields@.len() == k,
                                forall|j: int|
                                    0 <= j < k ==> field_view(#[trigger] new_fields@[j])
                                        == subst_field(
                                        field_view(base.fields@[j]),
                                        views_of(td.generic_params@),
                                        views_of(row.type_args@),
                                    ),
                            decreases base.fields@.len() - k,
                        {
                            let f = &base.fields[k];
                            let nf = CppFieldDecl {
                                name: f.name.clone(),
                                ty: subst_type(&f.ty, &td.generic_params, &row.type_args),
                                offset: f.offset,
                                instance: f.instance,
                                readonly: f.readonly,
                                classof_call: f.classof_call.clone(),
                                literal_value: match &f.literal_value {
                                    Some(v) => Some(v.clone()),
                                    None => None,
                                },
                                is_value_type: f.is_value_type,
                                declaring_is_reference: f.declaring_is_reference,
                            };
                            new_fields.push(nf);
                            k += 1;
                        }
                        let new_decl = CppType {
                            namespace: base.namespace.clone(),
                            name: name2,
                            is_value_type: base.is_value_type,
                            is_enum_type: base.is_enum_type,
                            is_interface: base.is_interface,
                            nested: false,
                            cpp_template: None,
                            generic_instantiation_args: Some(clone_strings(&row.type_args)),
                            fields: new_fields,
                            declarations: Vec::new(),
                            implementations: Vec::new(),
                        };
                        let entry = InstEntry {
                            tdi: o,
                            args: clone_strings(&row.type_args),
                            decl: new_decl,
                        };
                        proof {
                            let is = make_inst_spec(
                                o as int,
                                views_of(row.type_args@),
                                gps[o as int],
                                decls[o as int]->Some_0,
                            );
                            assert(decl_view(entry.decl).fields =~= is.decl.fields);
                            assert(views_of(entry.args@) =~= views_of(row.type_args@));
                            assert(views_of(
                                entry.decl.generic_instantiation_args->Some_0@,
                            ) =~= views_of(row.type_args@));
                            assert(inst_matches(entry, is));
                        }
                        pending = Some(entry);
                    }
                },
            }
            if let Some(entry) = pending {
                let ghost is = make_inst_spec(
                    o as int,
                    views_of(row.type_args@),
                    gps[o as int],
                    decls[o as int]->Some_0,
                );
                let ghost pre_insts = reg.insts@;
                let added = reg.insert_instantiation(entry);
                proof {
                    if added {
                        assert forall|x: int|
                            0 <= x < s_prev.len() implies !((#[trigger] s_prev[x]).decl.namespace
                            == is.decl.namespace && s_prev[x].decl.name == is.decl.name) by {
                            assert(inst_matches(pre_insts[x], s_prev[x]));
                            if s_prev[x].decl.namespace == is.decl.namespace
                                && s_prev[x].decl.name == is.decl.name {
                                assert(inst_same_identity(pre_insts[x], entry));
                            }
                        }
                        assert(spec_engine(rows, owners, gps, decls, i + 1) == Some(
                            s_prev.push(is),
                        ));
                    } else {
                        let x = choose|x: int|
                            0 <= x < pre_insts.len() && inst_same_identity(
                                #[trigger] pre_insts[x],
                                entry,
                            );
                        assert(inst_matches(pre_insts[x], s_prev[x]));
                        assert(s_prev[x].decl.namespace == is.decl.namespace && s_prev[x].decl.name
                            == is.decl.name);
                        assert(spec_engine(rows, owners, gps, decls, i + 1) == Some(s_prev));
                    }
                }
                if added {
                    created += 1;
                } else {
                    duplicates += 1;
                }
            }
        }
        i += 1;
    }
    Ok(InstantiationStats { created, skipped, duplicates })
}

/// Instantiation determinism: the synthesized sequence is a function of
/// the tables' observable content alone. Two metadata databases and two
/// registries that carry the same ordered tables drive the engine to an
/// identical sequence of synthesized declarations, in identical order.
pub proof fn lemma_instantiation_determinism(
    md1: Metadata,
    md2: Metadata,
    defs1: Seq<Option<DefEntry>>,
    defs2: Seq<Option<DefEntry>>,
    n: int,
)
    requires
        rows_view(md1) == rows_view(md2),
        owners_view(md1) == owners_view(md2),
        gps_view(md1) == gps_view(md2),
        defs_view(defs1) == defs_view(defs2),
    ensures
        spec_engine(rows_view(md1), owners_view(md1), gps_view(md1), defs_view(defs1), n)
            == spec_engine(rows_view(md2), owners_view(md2), gps_view(md2), defs_view(defs2), n),
        spec_skip_count(rows_view(md1), owners_view(md1), gps_view(md1), defs_view(defs1), n)
            == spec_skip_count(rows_view(md2), owners_view(md2), gps_view(md2), defs_view(defs2), n),
        spec_dup_count(rows_view(md1), owners_view(md1), gps_view(md1), defs_view(defs1), n)
            == spec_dup_count(rows_view(md2), owners_view(md2), gps_view(md2), defs_view(defs2), n),
{
}

} // verus!
