//! The name table: for each variant its ordered spelling list (canonical
//! spelling at position 0, aliases after it) and its documentation lines,
//! together with the flattened lookup from every accepted spelling to the
//! owning variant, in declaration order.

use vstd::prelude::*;

use crate::decl::{apply_modifiers, spellings_of, EnumDecl, Modifier, VariantDeclModel};
use crate::text::{eq_nocase, join_strings, join_with, str_eq_nocase};

verus! {

/// The name-table entry of one variant: its identifier, its accepted
/// spellings (canonical first, then aliases) and its documentation lines.
#[derive(Debug)]
pub struct VariantEntry {
    pub ident: String,
    pub spellings: Vec<String>,
    pub docs: Vec<String>,
}

/// The mathematical model of a `VariantEntry`.
pub struct VariantEntryModel {
    pub ident: Seq<char>,
    pub spellings: Seq<Seq<char>>,
    pub docs: Seq<Seq<char>>,
}

impl View for VariantEntry {
    type V = VariantEntryModel;

    open spec fn view(&self) -> VariantEntryModel {
        VariantEntryModel {
            ident: self.ident@,
            spellings: self.spellings.deep_view(),
            docs: self.docs.deep_view(),
        }
    }
}

impl DeepView for VariantEntry {
    type V = VariantEntryModel;

    open spec fn deep_view(&self) -> VariantEntryModel {
        self.view()
    }
}

/// One accepted spelling together with the index of the variant it maps to.
#[derive(Debug)]
pub struct Spelling {
    pub text: String,
    pub variant: usize,
}

/// The entry a variant declaration produces: the identifier kept, the
/// spellings built by applying the modifiers, the documentation lines kept.
pub open spec fn spec_entry(v: VariantDeclModel) -> VariantEntryModel {
    VariantEntryModel { ident: v.ident, spellings: spellings_of(v), docs: v.docs }
}

/// The entries of all variants, in declaration order.
pub open spec fn spec_entries(vs: Seq<VariantDeclModel>) -> Seq<VariantEntryModel> {
    vs.map_values(|v: VariantDeclModel| spec_entry(v))
}

/// The flattened lookup list: every accepted spelling paired with the index
/// of its owning variant, in declaration order (variant order, and within a
/// variant the canonical spelling first, then the aliases).
pub open spec fn spec_pairs(entries: Seq<VariantEntryModel>) -> Seq<(Seq<char>, int)>
    decreases entries.len(),
{
    if entries.len() == 0 {
        Seq::empty()
    } else {
        spec_pairs(entries.drop_last()) + entries.last().spellings.map_values(
            |s: Seq<char>| (s, entries.len() as int - 1),
        )
    }
}

/// The position in the flattened lookup list where variant `v`'s spellings
/// begin.
pub open spec fn pair_offset(entries: Seq<VariantEntryModel>, v: int) -> int {
    spec_pairs(entries.take(v)).len() as int
}

/// The spelling `j` of variant `v` stands in the flattened lookup list at
/// position `pair_offset(entries, v) + j`, paired with `v`.
pub proof fn lemma_pair_at(entries: Seq<VariantEntryModel>, v: int, j: int)
    requires
        0 <= v < entries.len(),
        0 <= j < entries[v].spellings.len(),
    ensures
        0 <= pair_offset(entries, v) + j < spec_pairs(entries).len(),
        spec_pairs(entries)[pair_offset(entries, v) + j] == (entries[v].spellings[j], v),
    decreases entries.len(),
{
    let dl = entries.drop_last();
    let n = entries.len() as int;
    if v < n - 1 {
        assert(entries.take(v) =~= dl.take(v));
        lemma_pair_at(dl, v, j);
    } else {
        assert(entries.take(v) =~= dl);
        let m = entries.last().spellings.map_values(|s: Seq<char>| (s, n - 1));
        assert(m[j] == (entries[v].spellings[j], v));
    }
}

/// Every position in the flattened lookup list comes from some spelling of
/// some variant.
pub proof fn lemma_pair_origin(entries: Seq<VariantEntryModel>, k: int)
    requires
        0 <= k < spec_pairs(entries).len(),
    ensures
        exists|v: int, j: int|
            0 <= v < entries.len() && 0 <= j < entries[v].spellings.len() && k == pair_offset(
                entries,
                v,
            ) + j && spec_pairs(entries)[k] == (entries[v].spellings[j], v),
    decreases entries.len(),
{
    let dl = entries.drop_last();
    let n = entries.len() as int;
    if k < spec_pairs(dl).len() {
        lemma_pair_origin(dl, k);
        let (v, j) = choose|v: int, j: int|
            0 <= v < dl.len() && 0 <= j < dl[v].spellings.len() && k == pair_offset(dl, v) + j
                && spec_pairs(dl)[k] == (dl[v].spellings[j], v);
        assert(entries.take(v) =~= dl.take(v));
        assert(0 <= v < entries.len() && 0 <= j < entries[v].spellings.len() && k == pair_offset(
            entries,
            v,
        ) + j && spec_pairs(entries)[k] == (entries[v].spellings[j], v));
    } else {
        let v = n - 1;
        let j = k - spec_pairs(dl).len();
        assert(entries.take(v) =~= dl);
        let m = entries.last().spellings.map_values(|s: Seq<char>| (s, n - 1));
        assert(m[j] == (entries[v].spellings[j], v));
        assert(0 <= v < entries.len() && 0 <= j < entries[v].spellings.len() && k == pair_offset(
            entries,
            v,
        ) + j && spec_pairs(entries)[k] == (entries[v].spellings[j], v));
    }
}

/// Position `k` of the flattened lookup list is the first whose spelling
/// matches `s` up to ASCII case.
pub open spec fn is_first_match(ps: Seq<(Seq<char>, int)>, s: Seq<char>, k: int) -> bool {
    0 <= k < ps.len() && eq_nocase(ps[k].0, s) && (forall|j: int|
        0 <= j < k ==> !eq_nocase(ps[j].0, s))
}

/// The variant the text `s` parses to: the owner of the first spelling in
/// declaration order that equals `s` up to ASCII case, or `None` when no
/// accepted spelling matches.
pub open spec fn spec_parse(entries: Seq<VariantEntryModel>, s: Seq<char>) -> Option<int> {
    let ps = spec_pairs(entries);
    if exists|k: int| is_first_match(ps, s, k) {
        Some(ps[choose|k: int| is_first_match(ps, s, k)].1)
    } else {
        None
    }
}

/// At most one position is the first match.
pub proof fn lemma_first_match_unique(ps: Seq<(Seq<char>, int)>, s: Seq<char>, k1: int, k2: int)
    requires
        is_first_match(ps, s, k1),
        is_first_match(ps, s, k2),
    ensures
        k1 == k2,
{
}

/// A first match at `k` settles the parse result.
pub proof fn lemma_parse_at(entries: Seq<VariantEntryModel>, s: Seq<char>, k: int)
    requires
        is_first_match(spec_pairs(entries), s, k),
    ensures
        spec_parse(entries, s) == Some(spec_pairs(entries)[k].1),
{
    let ps = spec_pairs(entries);
    let k2 = choose|k2: int| is_first_match(ps, s, k2);
    lemma_first_match_unique(ps, s, k, k2);
}

/// The flattened list of accepted spellings, in declaration order.
pub open spec fn spelling_list(entries: Seq<VariantEntryModel>) -> Seq<Seq<char>> {
    spec_pairs(entries).map_values(|p: (Seq<char>, int)| p.0)
}

/// The text of the parse failure: every accepted spelling in declaration
/// order, joined with a comma.
pub open spec fn spec_invalid_message(entries: Seq<VariantEntryModel>) -> Seq<char> {
    "valid values: "@ + join_with(spelling_list(entries), " ,"@)
}

/// The flattened lookup view of a list of spellings.
pub open spec fn lookup_view(s: Seq<Spelling>) -> Seq<(Seq<char>, int)> {
    s.map_values(|p: Spelling| (p.text@, p.variant as int))
}

/// The name table of one enum declaration: the per-variant entries and the
/// flattened spelling lookup, kept consistent by `wf`.
#[derive(Debug)]
pub struct NameTable {
    pub entries: Vec<VariantEntry>,
    pub lookup: Vec<Spelling>,
}

impl NameTable {
    /// The model of the table: the entries of the variants in order.
    pub open spec fn entries_view(&self) -> Seq<VariantEntryModel> {
        self.entries.deep_view()
    }

    /// Well-formedness: the lookup is the flattened spelling list of the
    /// entries, every variant has at least its canonical spelling, and
    /// every lookup entry points at a variant of the table.
    pub open spec fn wf(&self) -> bool {
        &&& lookup_view(self.lookup@) == spec_pairs(self.entries_view())
        &&& forall|v: int|
            0 <= v < self.entries_view().len() ==> self.entries_view()[v].spellings.len() >= 1
        &&& forall|k: int|
            0 <= k < self.lookup@.len() ==> (self.lookup@[k].variant as int)
                < self.entries_view().len()
    }
}

/// Clones a list of strings element by element.
fn clone_strings(v: &Vec<String>) -> (r: Vec<String>)
    ensures
        r.deep_view() == v.deep_view(),
{
    let mut r: Vec<String> = Vec::new();
    let mut i: usize = 0;
    while i < v.len()
        invariant
            i <= v.len(),
            r.deep_view() =~= v.deep_view().take(i as int),
        decreases v.len() - i,
    {
        proof {
            assert(r.deep_view() =~= v.deep_view().take(i as int));
            assert(r.deep_view().len() == i as int);
            assert(r@.len() == i as int);
        }
        r.push(v[i].clone());
        proof {
            assert(r.deep_view() =~= v.deep_view().take(i + 1));
        }
        i = i + 1;
    }
    proof {
        assert(v.deep_view().take(v.len() as int) =~= v.deep_view());
    }
    r
}

impl NameTable {
    /// Builds the name table of the declaration. For each variant the
    /// spelling list starts with the variant's identifier; the modifiers
    /// are applied in attachment order (`Alias` appends, `Name` overwrites
    /// the canonical position). Fails on the first variant that carries
    /// associated data, naming the enum and the variant, with no table
    /// produced.
    pub fn build(decl: &EnumDecl) -> (r: Result<NameTable, GenError>)
        ensures
            match r {
                Ok(t) => {
                    &&& forall|v: int|
                        0 <= v < decl@.variants.len() ==> decl@.variants[v].fields == 0
                    &&& t.wf()
                    &&& t.entries_view() == spec_entries(decl@.variants)
                },
                Err(e) => exists|i: int|
                    {
                        &&& 0 <= i < decl@.variants.len()
                        &&& decl@.variants[i].fields != 0
                        &&& forall|j: int| 0 <= j < i ==> decl@.variants[j].fields == 0
                        &&& e.enum_ident@ == decl@.ident
                        &&& e.variant_ident@ == decl@.variants[i].ident
                    },
            },
    {
        let mut entries: Vec<VariantEntry> = Vec::new();
        let mut lookup: Vec<Spelling> = Vec::new();
        let n = decl.variants.len();
        let mut i: usize = 0;
        while i < n
            invariant
                i <= n,
                n == decl.variants.len(),
                decl@.variants.len() == n,
                entries.deep_view() =~= spec_entries(decl@.variants.take(i as int)),
                lookup_view(lookup@) == spec_pairs(entries.deep_view()),
                forall|j: int| 0 <= j < i ==> decl@.variants[j].fields == 0,
                forall|v: int|
                    0 <= v < entries.deep_view().len() ==> entries.deep_view()[v].spellings.len()
                        >= 1,
                forall|k: int| 0 <= k < lookup@.len() ==> (lookup@[k].variant as int) < i,
                entries.len() == i,
            decreases n - i,
        {
            let v = &decl.variants[i];
            proof {
                assert(v@ == decl@.variants[i as int]);
            }
            if v.fields != 0 {
                let e = GenError {
                    enum_ident: decl.ident.clone(),
                    variant_ident: v.ident.clone(),
                };
                proof {
                    assert({
                        &&& 0 <= i < decl@.variants.len()
                        &&& decl@.variants[i as int].fields != 0
                        &&& forall|j: int| 0 <= j < i ==> decl@.variants[j].fields == 0
                        &&& e.enum_ident@ == decl@.ident
                        &&& e.variant_ident@ == decl@.variants[i as int].ident
                    });
                }
                return Err(e);
            }
            let mut spellings: Vec<String> = Vec::new();
            spellings.push(v.ident.clone());
            proof {
                assert(spellings.deep_view() =~= apply_modifiers(
                    seq![v@.ident],
                    v@.modifiers.take(0),
                ));
            }
            let mut m: usize = 0;
            while m < v.modifiers.len()
                invariant
                    m <= v.modifiers.len(),
                    v@.modifiers.len() == v.modifiers.len(),
                    spellings.len() >= 1,
                    spellings.deep_view() == apply_modifiers(
                        seq![v@.ident],
                        v@.modifiers.take(m as int),
                    ),
                decreases v.modifiers.len() - m,
            {
                proof {
                    assert(v@.modifiers.take(m + 1).drop_last() =~= v@.modifiers.take(m as int));
                    assert(v@.modifiers.take(m + 1).last() == v@.modifiers[m as int]);
                    assert(v@.modifiers[m as int] == v.modifiers[m as int]@);
                    assert(spellings.deep_view() =~= apply_modifiers(
                        seq![v@.ident],
                        v@.modifiers.take(m as int),
                    ));
                    assert(spellings.deep_view().len() == spellings@.len());
                }
                match &v.modifiers[m] {
                    Modifier::Alias(a) => {
                        spellings.push(a.clone());
                    },
                    Modifier::Name(nm) => {
                        spellings.set(0, nm.clone());
                    },
                }
                proof {
                    assert(spellings.deep_view() =~= apply_modifiers(
                        seq![v@.ident],
                        v@.modifiers.take(m + 1),
                    ));
                }
                m = m + 1;
            }
            proof {
                assert(v@.modifiers.take(v@.modifiers.len() as int) =~= v@.modifiers);
                assert(spellings.deep_view() == spellings_of(v@));
            }
            let ghost entries_before = entries.deep_view();
            let ghost spl = spellings.deep_view();
            let ghost off = spec_pairs(entries_before).len() as int;
            proof {
                assert forall|q: int| 0 <= q < off implies ((#[trigger] lookup@[q]).text@,
                lookup@[q].variant as int) == spec_pairs(entries_before)[q] by {
                    assert(lookup_view(lookup@)[q] == (lookup@[q].text@, lookup@[q].variant as int));
                }
                assert(lookup@.len() == lookup_view(lookup@).len());
                assert(lookup@.len() == off);
            }
            let mut k: usize = 0;
            while k < spellings.len()
                invariant
                    k <= spellings.len(),
                    spl == spellings.deep_view(),
                    spl.len() == spellings.len(),
                    lookup@.len() == off + k,
                    off >= 0,
                    forall|q: int|
                        0 <= q < off ==> ((#[trigger] lookup@[q]).text@, lookup@[q].variant as int)
                            == spec_pairs(entries_before)[q],
                    forall|q: int|
                        off <= q < off + k ==> ((#[trigger] lookup@[q]).text@, lookup@[q].variant
                            as int) == (spl[q - off], i as int),
                    forall|q: int| 0 <= q < lookup@.len() ==> (lookup@[q].variant as int) <= i as int,
                decreases spellings.len() - k,
            {
                lookup.push(Spelling { text: spellings[k].clone(), variant: i });
                proof {
                    assert(lookup@.last().text@ == spellings@[k as int]@);
                    assert(spl[k as int] == spellings@[k as int]@);
                }
                k = k + 1;
            }
            proof {
                assert(spl.len() >= 1);
                assert(spl == spellings_of(v@));
            }
            let entry = VariantEntry {
                ident: v.ident.clone(),
                spellings,
                docs: clone_strings(&v.docs),
            };
            proof {
                assert(entry@.spellings == spellings_of(v@));
                assert(entry@ == spec_entry(v@));
                assert(entries.deep_view() =~= spec_entries(decl@.variants.take(i as int)));
                assert(entries.deep_view().len() == i as int);
                assert(entries@.len() == i as int);
            }
            entries.push(entry);
            proof {
                let ghost es = entries.deep_view();
                assert(es.drop_last() =~= entries_before);
                assert(es.last() == spec_entry(v@));
                assert(es.len() == i + 1);
                let ghost newpart = es.last().spellings.map_values(
                    |s: Seq<char>| (s, es.len() as int - 1),
                );
                assert(spec_pairs(es) == spec_pairs(es.drop_last()) + newpart);
                assert(spec_pairs(es.drop_last()) == spec_pairs(entries_before));
                assert(newpart.len() == spl.len());
                assert forall|q: int| 0 <= q < lookup@.len() implies lookup_view(lookup@)[q]
                    == spec_pairs(es)[q] by {
                    assert(lookup_view(lookup@)[q] == (lookup@[q].text@, lookup@[q].variant as int));
                    if q < off {
                        assert(spec_pairs(es)[q] == spec_pairs(entries_before)[q]);
                    } else {
                        let j = q - off;
                        assert((lookup@[q].text@, lookup@[q].variant as int) == (
                        spl[j],
                        i as int,
                        ));
                        assert(spec_pairs(es)[q] == newpart[j]);
                        assert(newpart[j] == (es.last().spellings[j], i as int));
                        assert(es.last().spellings[j] == spl[j]);
                    }
                }
                assert(lookup_view(lookup@).len() == lookup@.len());
                assert(lookup_view(lookup@) =~= spec_pairs(es));
                assert forall|q: int| 0 <= q < es.len() implies es[q] == spec_entries(
                    decl@.variants.take(i + 1),
                )[q] by {
                    assert(decl@.variants.take(i + 1)[q] == decl@.variants[q]);
                    assert(spec_entries(decl@.variants.take(i + 1))[q] == spec_entry(
                        decl@.variants[q],
                    ));
                    if q < i {
                        assert(es[q] == entries_before[q]);
                        assert(entries_before[q] == spec_entries(decl@.variants.take(i as int))[q]);
                        assert(spec_entries(decl@.variants.take(i as int))[q] == spec_entry(
                            decl@.variants.take(i as int)[q],
                        ));
                        assert(decl@.variants.take(i as int)[q] == decl@.variants[q]);
                    } else {
                        assert(es[q] == spec_entry(v@));
                    }
                }
                assert(es.len() == spec_entries(decl@.variants.take(i + 1)).len());
                assert(entries.deep_view() =~= spec_entries(decl@.variants.take(i + 1)));
                assert forall|vv: int| 0 <= vv < es.len() implies es[vv].spellings.len() >= 1 by {
                    if vv < i {
                        assert(es[vv] == entries_before[vv]);
                    } else {
                        assert(es[vv].spellings == spl);
                    }
                }
            }
            i = i + 1;
        }
        proof {
            assert(decl@.variants.take(n as int) =~= decl@.variants);
        }
        Ok(NameTable { entries, lookup })
    }

    /// The accepted spellings, canonical spellings and aliases alike, in
    /// declaration order: the generated introspection array.
    pub fn variants(&self) -> (r: Vec<String>)
        requires
            self.wf(),
        ensures
            r.deep_view() == spelling_list(self.entries_view()),
    {
        let ghost goal = spelling_list(self.entries_view());
        proof {
            assert(goal.len() == self.lookup@.len());
        }
        let mut r: Vec<String> = Vec::new();
        let mut k: usize = 0;
        while k < self.lookup.len()
            invariant
                k <= self.lookup.len(),
                goal == spelling_list(self.entries_view()),
                goal.len() == self.lookup@.len(),
                self.wf(),
                r.deep_view() =~= goal.take(k as int),
            decreases self.lookup.len() - k,
        {
            proof {
                assert(r.deep_view() =~= goal.take(k as int));
                assert(r.deep_view().len() == k as int);
                assert(r@.len() == k as int);
                assert(lookup_view(self.lookup@)[k as int] == (
                    self.lookup@[k as int].text@,
                    self.lookup@[k as int].variant as int,
                ));
                assert(goal[k as int] == spec_pairs(self.entries_view())[k as int].0);
                assert(goal[k as int] == self.lookup@[k as int].text@);
            }
            r.push(self.lookup[k].text.clone());
            proof {
                assert(r.deep_view() =~= goal.take(k + 1));
            }
            k = k + 1;
        }
        proof {
            assert(goal.take(goal.len() as int) =~= goal);
        }
        r
    }

    /// Parses a text into the variant it names: the owner of the first
    /// accepted spelling, in declaration order, that equals the text up to
    /// ASCII case. When no spelling matches, fails with the message that
    /// lists every accepted spelling, comma-joined, in declaration order.
    pub fn parse_text(&self, s: &str) -> (r: Result<usize, String>)
        requires
            self.wf(),
        ensures
            match r {
                Ok(i) => spec_parse(self.entries_view(), s@) == Some(i as int) && (i as int)
                    < self.entries_view().len(),
                Err(m) => spec_parse(self.entries_view(), s@) is None && m@
                    == spec_invalid_message(self.entries_view()),
            },
    {
        let ghost ps = spec_pairs(self.entries_view());
        proof {
            assert(ps.len() == self.lookup@.len());
        }
        let mut k: usize = 0;
        while k < self.lookup.len()
            invariant
                k <= self.lookup.len(),
                self.wf(),
                ps == spec_pairs(self.entries_view()),
                ps.len() == self.lookup@.len(),
                forall|q: int| 0 <= q < k ==> !eq_nocase(ps[q].0, s@),
            decreases self.lookup.len() - k,
        {
            proof {
                assert(lookup_view(self.lookup@)[k as int] == (
                    self.lookup@[k as int].text@,
                    self.lookup@[k as int].variant as int,
                ));
                assert(ps[k as int].0 == self.lookup@[k as int].text@);
            }
            if str_eq_nocase(self.lookup[k].text.as_str(), s) {
                proof {
                    assert(is_first_match(ps, s@, k as int));
                    lemma_parse_at(self.entries_view(), s@, k as int);
                }
                return Ok(self.lookup[k].variant);
            }
            k = k + 1;
        }
        proof {
            assert forall|k2: int| !is_first_match(ps, s@, k2) by {
                if 0 <= k2 < ps.len() {
                    assert(!eq_nocase(ps[k2].0, s@));
                }
            }
        }
        let texts = self.variants();
        let joined = join_strings(&texts, " ,");
        let mut m = String::from_str("valid values: ");
        m.append(joined.as_str());
        Err(m)
    }

    /// Renders a variant to its canonical spelling: position 0 of its
    /// spelling list, never an alias.
    pub fn render(&self, variant: usize) -> (r: String)
        requires
            self.wf(),
            (variant as int) < self.entries_view().len(),
        ensures
            r@ == self.entries_view()[variant as int].spellings[0],
    {
        proof {
            assert(self.entries_view().len() == self.entries@.len());
            assert(self.entries_view()[variant as int] == self.entries@[variant as int]@);
            assert(self.entries_view()[variant as int].spellings.len() >= 1);
            assert(self.entries@[variant as int].spellings.deep_view().len() == self.entries@[
                variant as int
            ].spellings@.len());
        }
        self.entries[variant].spellings[0].clone()
    }

    /// The per-variant descriptions: for each variant, in declaration
    /// order, its accepted spellings paired with its documentation lines.
    pub fn descriptions(&self) -> (r: Vec<(Vec<String>, Vec<String>)>)
        requires
            self.wf(),
        ensures
            r@.len() == self.entries_view().len(),
            forall|v: int|
                0 <= v < r@.len() ==> (#[trigger] r@[v]).0.deep_view()
                    == self.entries_view()[v].spellings && r@[v].1.deep_view()
                    == self.entries_view()[v].docs,
    {
        let mut r: Vec<(Vec<String>, Vec<String>)> = Vec::new();
        let mut v: usize = 0;
        while v < self.entries.len()
            invariant
                v <= self.entries.len(),
                self.entries_view().len() == self.entries@.len(),
                r@.len() == v,
                forall|q: int|
                    0 <= q < v ==> (#[trigger] r@[q]).0.deep_view()
                        == self.entries_view()[q].spellings && r@[q].1.deep_view()
                        == self.entries_view()[q].docs,
            decreases self.entries.len() - v,
        {
            let spellings = clone_strings(&self.entries[v].spellings);
            let docs = clone_strings(&self.entries[v].docs);
            proof {
                assert(self.entries_view()[v as int] == self.entries@[v as int]@);
            }
            r.push((spellings, docs));
            v = v + 1;
        }
        r
    }
}

/// The failure of a generation run: the variant named carries associated
/// data, so no artifact is generated.
#[derive(Debug)]
pub struct GenError {
    pub enum_ident: String,
    pub variant_ident: String,
}

impl GenError {
    /// The diagnostic text of the failure.
    pub open spec fn spec_message(&self) -> Seq<char> {
        "Only enum with unit variants are supported! \nVariant "@ + self.enum_ident@ + "::"@
            + self.variant_ident@ + " is not an unit variant"@
    }

    /// Renders the diagnostic text of the failure.
    pub fn message(&self) -> (r: String)
        ensures
            r@ == self.spec_message(),
    {
        let mut r = String::from_str("Only enum with unit variants are supported! \nVariant ");
        r.append(self.enum_ident.as_str());
        r.append("::");
        r.append(self.variant_ident.as_str());
        r.append(" is not an unit variant");
        r
    }
}

} // verus!
