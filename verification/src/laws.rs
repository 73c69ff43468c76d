//! The laws of the generated artifacts, proved once and for all over the
//! model: what parsing returns for each accepted spelling, what a `name`
//! override changes, that parsing is insensitive to ASCII case, and how
//! many spellings the introspection lists hold.

use vstd::prelude::*;

use crate::decl::{aliases_of, canonical_of, has_name, lemma_spelling_count,
    lemma_spellings_structure, EnumDeclModel, VariantDeclModel};
use crate::table::{is_first_match, lemma_pair_at, lemma_pair_origin, lemma_parse_at, pair_offset,
    spec_entries, spec_entry, spec_pairs, spec_parse, VariantEntryModel};
use crate::text::{eq_nocase, lemma_eq_nocase_refl, lemma_eq_nocase_symm, lemma_eq_nocase_trans};

verus! {

/// No two accepted spellings of the table collide up to ASCII case.
pub open spec fn spellings_distinct(entries: Seq<VariantEntryModel>) -> bool {
    forall|a: int, b: int|
        0 <= a < b < spec_pairs(entries).len() ==> !eq_nocase(
            spec_pairs(entries)[a].0,
            spec_pairs(entries)[b].0,
        )
}

/// Parsing any accepted spelling of a variant — its canonical spelling or
/// any of its aliases, in any ASCII case — yields that variant, provided no
/// two accepted spellings of the enum collide up to ASCII case.
pub proof fn lemma_parse_accepted_spelling(e: EnumDeclModel, v: int, j: int, s: Seq<char>)
    requires
        spellings_distinct(spec_entries(e.variants)),
        0 <= v < e.variants.len(),
        0 <= j < spec_entries(e.variants)[v].spellings.len(),
        eq_nocase(s, spec_entries(e.variants)[v].spellings[j]),
    ensures
        spec_parse(spec_entries(e.variants), s) == Some(v),
{
    let entries = spec_entries(e.variants);
    let ps = spec_pairs(entries);
    lemma_pair_at(entries, v, j);
    let k0 = pair_offset(entries, v) + j;
    lemma_eq_nocase_symm(s, entries[v].spellings[j]);
    assert(eq_nocase(ps[k0].0, s));
    assert forall|q: int| 0 <= q < k0 implies !eq_nocase(ps[q].0, s) by {
        if eq_nocase(ps[q].0, s) {
            lemma_eq_nocase_trans(ps[q].0, s, entries[v].spellings[j]);
            lemma_eq_nocase_symm(ps[q].0, ps[k0].0);
            assert(false);
        }
    }
    assert(is_first_match(ps, s, k0));
    lemma_parse_at(entries, s, k0);
}

/// A variant's canonical spelling stands at position 0 of its spelling
/// list, and everything after position 0 is exactly its aliases in
/// attachment order — rendering therefore never produces an alias.
pub proof fn lemma_canonical_spelling(e: EnumDeclModel, v: int)
    requires
        0 <= v < e.variants.len(),
    ensures
        spec_entries(e.variants)[v].spellings[0] == canonical_of(
            e.variants[v].ident,
            e.variants[v].modifiers,
        ),
        spec_entries(e.variants)[v].spellings.len() == 1 + aliases_of(
            e.variants[v].modifiers,
        ).len(),
        forall|j: int|
            1 <= j < spec_entries(e.variants)[v].spellings.len() ==> spec_entries(
                e.variants,
            )[v].spellings[j] == aliases_of(e.variants[v].modifiers)[j - 1],
{
    lemma_spellings_structure(e.variants[v].ident, e.variants[v].modifiers);
    assert(spec_entries(e.variants)[v] == spec_entry(e.variants[v]));
}

/// For an enum without modifiers: parsing the identifier text of a variant,
/// in any ASCII case, yields that variant, and its rendered form is the
/// identifier text exactly — provided no two identifiers collide up to
/// ASCII case.
pub proof fn lemma_plain_enum_round_trip(e: EnumDeclModel, i: int, s: Seq<char>)
    requires
        forall|v: int| 0 <= v < e.variants.len() ==> e.variants[v].modifiers.len() == 0,
        forall|a: int, b: int|
            0 <= a < b < e.variants.len() ==> !eq_nocase(e.variants[a].ident, e.variants[b].ident),
        0 <= i < e.variants.len(),
        eq_nocase(s, e.variants[i].ident),
    ensures
        spec_parse(spec_entries(e.variants), s) == Some(i),
        spec_entries(e.variants)[i].spellings[0] == e.variants[i].ident,
{
    let entries = spec_entries(e.variants);
    let ps = spec_pairs(entries);
    assert forall|v: int| 0 <= v < entries.len() implies entries[v].spellings == seq![
        e.variants[v].ident,
    ] by {
        assert(entries[v] == spec_entry(e.variants[v]));
    }
    assert forall|a: int, b: int|
        0 <= a < b < ps.len() implies !eq_nocase(ps[a].0, ps[b].0) by {
        lemma_pair_origin(entries, a);
        lemma_pair_origin(entries, b);
        let (va, ja) = choose|va: int, ja: int|
            0 <= va < entries.len() && 0 <= ja < entries[va].spellings.len() && a == pair_offset(
                entries,
                va,
            ) + ja && ps[a] == (entries[va].spellings[ja], va);
        let (vb, jb) = choose|vb: int, jb: int|
            0 <= vb < entries.len() && 0 <= jb < entries[vb].spellings.len() && b == pair_offset(
                entries,
                vb,
            ) + jb && ps[b] == (entries[vb].spellings[jb], vb);
        assert(ja == 0 && jb == 0);
        assert(va != vb);
        if va < vb {
            assert(!eq_nocase(e.variants[va].ident, e.variants[vb].ident));
        } else {
            assert(!eq_nocase(e.variants[vb].ident, e.variants[va].ident));
            if eq_nocase(ps[a].0, ps[b].0) {
                lemma_eq_nocase_symm(ps[a].0, ps[b].0);
            }
        }
    }
    lemma_parse_accepted_spelling(e, i, 0, s);
}

/// A `name` modifier replaces the canonical spelling: the variant renders
/// to the override, parsing the override yields the variant, and parsing
/// the identifier's own text fails — provided the identifier was not
/// re-added as an alias (it matches no accepted spelling up to ASCII case)
/// and no two accepted spellings collide up to ASCII case.
pub proof fn lemma_name_override(e: EnumDeclModel, v: int)
    requires
        spellings_distinct(spec_entries(e.variants)),
        0 <= v < e.variants.len(),
        has_name(e.variants[v].modifiers),
        forall|k: int|
            0 <= k < spec_pairs(spec_entries(e.variants)).len() ==> !eq_nocase(
                spec_pairs(spec_entries(e.variants))[k].0,
                e.variants[v].ident,
            ),
    ensures
        spec_parse(spec_entries(e.variants), e.variants[v].ident) is None,
        spec_parse(
            spec_entries(e.variants),
            canonical_of(e.variants[v].ident, e.variants[v].modifiers),
        ) == Some(v),
        spec_entries(e.variants)[v].spellings[0] == canonical_of(
            e.variants[v].ident,
            e.variants[v].modifiers,
        ),
{
    let entries = spec_entries(e.variants);
    let ps = spec_pairs(entries);
    lemma_canonical_spelling(e, v);
    if exists|k: int| is_first_match(ps, e.variants[v].ident, k) {
        let k = choose|k: int| is_first_match(ps, e.variants[v].ident, k);
        assert(false);
    }
    let c = canonical_of(e.variants[v].ident, e.variants[v].modifiers);
    lemma_eq_nocase_refl(c);
    lemma_parse_accepted_spelling(e, v, 0, c);
}

/// Parsing is insensitive to ASCII case: two inputs equal up to ASCII case
/// parse identically.
pub proof fn lemma_parse_case_insensitive(
    entries: Seq<VariantEntryModel>,
    s1: Seq<char>,
    s2: Seq<char>,
)
    requires
        eq_nocase(s1, s2),
    ensures
        spec_parse(entries, s1) == spec_parse(entries, s2),
{
    let ps = spec_pairs(entries);
    assert forall|k: int|
        0 <= k < ps.len() implies eq_nocase(ps[k].0, s1) == eq_nocase(ps[k].0, s2) by {
        if eq_nocase(ps[k].0, s1) {
            lemma_eq_nocase_trans(ps[k].0, s1, s2);
        }
        if eq_nocase(ps[k].0, s2) {
            lemma_eq_nocase_symm(s1, s2);
            lemma_eq_nocase_trans(ps[k].0, s2, s1);
        }
    }
    if exists|k: int| is_first_match(ps, s1, k) {
        let k = choose|k: int| is_first_match(ps, s1, k);
        assert(is_first_match(ps, s2, k));
        lemma_parse_at(entries, s1, k);
        lemma_parse_at(entries, s2, k);
    } else {
        if exists|k: int| is_first_match(ps, s2, k) {
            let k = choose|k: int| is_first_match(ps, s2, k);
            assert(is_first_match(ps, s1, k));
            assert(false);
        }
    }
}

/// The total number of alias modifiers across the variants.
pub open spec fn total_aliases(vs: Seq<VariantDeclModel>) -> int
    decreases vs.len(),
{
    if vs.len() == 0 {
        0
    } else {
        total_aliases(vs.drop_last()) + aliases_of(vs.last().modifiers).len()
    }
}

/// The accepted-spellings list holds one entry per variant plus one per
/// alias modifier; the descriptions list holds one entry per variant.
pub proof fn lemma_accepted_count(vs: Seq<VariantDeclModel>)
    ensures
        spec_pairs(spec_entries(vs)).len() == vs.len() + total_aliases(vs),
        spec_entries(vs).len() == vs.len(),
    decreases vs.len(),
{
    if vs.len() > 0 {
        lemma_accepted_count(vs.drop_last());
        assert(spec_entries(vs).drop_last() =~= spec_entries(vs.drop_last()));
        assert(spec_entries(vs).last() == spec_entry(vs.last()));
        lemma_spelling_count(vs.last().ident, vs.last().modifiers);
    }
}

} // verus!
