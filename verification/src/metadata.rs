//! The metadata adapter's view of the parsed binary: per-type facts in
//! table order, the generic-instantiation table, and the filter policy
//! that keeps compiler-synthesized types out of generation.
use vstd::prelude::*;

use crate::strutil::{seq_contains_sub, str_contains_sub, str_eq};

verus! {

/// Sentinel declaring-type index: the type is not nested.
pub const DECLARING_NONE: u32 = 0xffffffff;

/// One field as the metadata gives it. The offset is authoritative.
#[derive(Clone, Debug)]
pub struct FieldMeta {
    pub name: String,
    /// Full name of the field's own type, resolvable against the table.
    pub ty_name: String,
    pub offset: u32,
    pub instance: bool,
    pub readonly: bool,
    /// Whether the field's own type is a value type (held inline).
    pub is_value_type: bool,
    /// A compile-time constant overriding runtime storage.
    pub literal_value: Option<String>,
}

/// One type definition as the metadata gives it.
#[derive(Clone, Debug)]
pub struct TypeDefMeta {
    pub namespace: String,
    pub name: String,
    /// Fully qualified name, unique over the whole table.
    pub full_name: String,
    /// Index of the enclosing type, or `DECLARING_NONE`.
    pub declaring_index: u32,
    pub is_value_type: bool,
    pub is_enum: bool,
    pub is_interface: bool,
    /// Template parameter names, empty for a non-generic type.
    pub generic_params: Vec<String>,
    pub fields: Vec<FieldMeta>,
}

/// One compiled method: the index of its declaring type and its name.
#[derive(Clone, Debug)]
pub struct MethodMeta {
    pub owner: u32,
    pub name: String,
}

/// One generic instantiation the binary actually uses: the generic
/// method's index and the concrete type arguments of its declaring class.
#[derive(Clone, Debug)]
pub struct GenericInstRow {
    pub method_index: u32,
    pub type_args: Vec<String>,
}

/// The read-only, already-validated in-memory database every pass reads.
pub struct Metadata {
    pub type_defs: Vec<TypeDefMeta>,
    pub methods: Vec<MethodMeta>,
    pub generic_insts: Vec<GenericInstRow>,
}

impl Metadata {
    /// What the upstream parser guarantees of its tables: indices fit in
    /// the sentinel's range, method owners are in range, and full
    /// qualified names are distinct over the whole table. Raw
    /// (namespace, simple name) pairs repeat in real metadata — nested
    /// synthesized classes share simple names — so nothing more is asked.
    pub open spec fn wf(self) -> bool {
        &&& self.type_defs@.len() < DECLARING_NONE
        &&& forall|i: int, j: int|
            0 <= i < j < self.type_defs@.len() ==> (#[trigger] self.type_defs@[i].full_name@)
                != (#[trigger] self.type_defs@[j].full_name@)
        &&& forall|m: int|
            0 <= m < self.methods@.len() ==> (#[trigger] self.methods@[m].owner)
                < self.type_defs@.len()
    }
}

/// The process-wide exclusion set the filter policy records into: one
/// mark per type-definition index. Once set, a mark is never cleared.
pub struct Blacklist {
    pub excluded: Vec<bool>,
}

impl Blacklist {
    /// One mark per type definition.
    pub open spec fn wf(self, md: Metadata) -> bool {
        self.excluded@.len() == md.type_defs@.len()
    }

    /// Whether the type at `tdi` is excluded from generation.
    pub open spec fn spec_excluded(self, tdi: int) -> bool {
        self.excluded@[tdi]
    }

    /// A fresh policy excluding nothing.
    pub fn new(md: &Metadata) -> (r: Self)
        ensures
            r.wf(*md),
            forall|t: int| 0 <= t < md.type_defs@.len() ==> !r.spec_excluded(t),
    {
        let mut excluded: Vec<bool> = Vec::new();
        let mut i: usize = 0;
        while i < md.type_defs.len()
            invariant
                0 <= i <= md.type_defs@.len(),
                excluded@.len() == i,
                forall|t: int| 0 <= t < i ==> !excluded@[t],
            decreases md.type_defs@.len() - i,
        {
            excluded.push(false);
            i += 1;
        }
        Blacklist { excluded }
    }

    /// Whether the type at `tdi` has been excluded.
    pub fn is_excluded(&self, tdi: u32) -> (r: bool)
        requires
            (tdi as int) < self.excluded@.len(),
        ensures
            r == self.spec_excluded(tdi as int),
    {
        self.excluded[tdi as usize]
    }


    /// How many types the policy has excluded, for the run summary.
    pub fn excluded_count(&self) -> (r: usize)
        ensures
            r as int == spec_excluded_count(self.excluded@, self.excluded@.len() as int),
    {
        let mut r: usize = 0;
        let mut i: usize = 0;
        while i < self.excluded.len()
            invariant
                0 <= i <= self.excluded@.len(),
                r <= i,
                r as int == spec_excluded_count(self.excluded@, i as int),
            decreases self.excluded@.len() - i,
        {
            if self.excluded[i] {
                r += 1;
            }
            i += 1;
        }
        r
    }

    /// Excludes every type whose full qualified name equals `full_name`.
    /// Returns whether any type matched, so a miss can be reported.
    pub fn exclude_exact(&mut self, md: &Metadata, full_name: &str) -> (found: bool)
        requires
            old(self).wf(*md),
        ensures
            final(self).wf(*md),
            forall|t: int|
                0 <= t < md.type_defs@.len() ==> final(self).spec_excluded(t) == (old(
                    self,
                ).spec_excluded(t) || md.type_defs@[t].full_name@ == full_name@),
            found == exists|t: int|
                0 <= t < md.type_defs@.len() && (#[trigger] md.type_defs@[t].full_name@)
                    == full_name@,
    {
        let mut out: Vec<bool> = Vec::new();
        let mut found = false;
        let mut i: usize = 0;
        while i < md.type_defs.len()
            invariant
                *self == *old(self),
                old(self).wf(*md),
                0 <= i <= md.type_defs@.len(),
                out@.len() == i,
                forall|t: int|
                    0 <= t < i ==> out@[t] == (old(self).spec_excluded(t)
                        || md.type_defs@[t].full_name@ == full_name@),
                found == exists|t: int|
                    0 <= t < i && (#[trigger] md.type_defs@[t].full_name@) == full_name@,
            decreases md.type_defs@.len() - i,
        {
            let hit = str_eq(md.type_defs[i].full_name.as_str(), full_name);
            out.push(self.excluded[i] || hit);
            if hit {
                found = true;
            }
            i += 1;
        }
        self.excluded = out;
        found
    }

    /// Excludes every type whose full qualified name holds `pattern` as a
    /// substring (the synthetic-class markers). Returns whether any
    /// matched.
    pub fn exclude_matching(&mut self, md: &Metadata, pattern: &str) -> (found: bool)
        requires
            old(self).wf(*md),
        ensures
            final(self).wf(*md),
            forall|t: int|
                0 <= t < md.type_defs@.len() ==> final(self).spec_excluded(t) == (old(
                    self,
                ).spec_excluded(t) || seq_contains_sub(md.type_defs@[t].full_name@, pattern@)),
            found == exists|t: int|
                0 <= t < md.type_defs@.len() && seq_contains_sub(
                    #[trigger] md.type_defs@[t].full_name@,
                    pattern@,
                ),
    {
        let mut out: Vec<bool> = Vec::new();
        let mut found = false;
        let mut i: usize = 0;
        while i < md.type_defs.len()
            invariant
                *self == *old(self),
                old(self).wf(*md),
                0 <= i <= md.type_defs@.len(),
                out@.len() == i,
                forall|t: int|
                    0 <= t < i ==> out@[t] == (old(self).spec_excluded(t)
                        || seq_contains_sub(md.type_defs@[t].full_name@, pattern@)),
                found == exists|t: int|
                    0 <= t < i && seq_contains_sub(
                        #[trigger] md.type_defs@[t].full_name@,
                        pattern@,
                    ),
            decreases md.type_defs@.len() - i,
        {
            let hit = str_contains_sub(md.type_defs[i].full_name.as_str(), pattern);
            out.push(self.excluded[i] || hit);
            if hit {
                found = true;
            }
            i += 1;
        }
        self.excluded = out;
        found
    }
}

/// Decides the database well-formedness `wf` at run time, so a caller
/// holding tables from an untrusted parser can test them before any
/// pass runs, and fail on the fatal path instead of trusting upstream.
pub fn check_wf(md: &Metadata) -> (r: bool)
    ensures
        r == md.wf(),
{
    let n = md.type_defs.len();
    if n >= (DECLARING_NONE as usize) {
        return false;
    }
    let mut i: usize = 0;
    while i < n
        invariant
            n == md.type_defs@.len(),
            0 <= i <= n,
            forall|a: int, b: int|
                0 <= a < i && a < b < n ==> (#[trigger] md.type_defs@[a].full_name@) != (
                #[trigger] md.type_defs@[b].full_name@),
        decreases n - i,
    {
        let mut j: usize = i + 1;
        while j < n
            invariant
                n == md.type_defs@.len(),
                0 <= i < n,
                i < j <= n,
                forall|b: int|
                    i < b < j ==> (#[trigger] md.type_defs@[i as int].full_name@)
                        != md.type_defs@[b].full_name@,
            decreases n - j,
        {
            if str_eq(md.type_defs[i].full_name.as_str(), md.type_defs[j].full_name.as_str()) {
                return false;
            }
            j += 1;
        }
        i += 1;
    }
    let mut m: usize = 0;
    while m < md.methods.len()
        invariant
            n == md.type_defs@.len(),
            n < DECLARING_NONE,
            forall|a: int, b: int|
                0 <= a < b < n ==> (#[trigger] md.type_defs@[a].full_name@) != (
                #[trigger] md.type_defs@[b].full_name@),
            0 <= m <= md.methods@.len(),
            forall|a: int| 0 <= a < m ==> (#[trigger] md.methods@[a].owner) < md.type_defs@.len(),
        decreases md.methods@.len() - m,
    {
        if (md.methods[m].owner as usize) >= n {
            return false;
        }
        m += 1;
    }
    true
}

/// How many of the first `n` marks are set.
pub open spec fn spec_excluded_count(s: Seq<bool>, n: int) -> int
    decreases n,
{
    if n <= 0 {
        0
    } else {
        spec_excluded_count(s, n - 1) + if s[n - 1] {
            1int
        } else {
            0int
        }
    }
}

} // verus!
