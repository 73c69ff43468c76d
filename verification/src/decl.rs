//! The model of an enum declaration: the enum's identifier and its ordered
//! variants, each with an identifier, documentation lines, per-variant
//! modifiers and a count of associated data fields (which must be zero for
//! generation to succeed).

use vstd::prelude::*;

verus! {

/// A per-variant directive: `Alias` adds an accepted spelling that maps to
/// the variant, `Name` overrides the variant's canonical spelling.
#[derive(Debug)]
pub enum Modifier {
    Alias(String),
    Name(String),
}

/// The mathematical model of a `Modifier`.
pub enum ModifierModel {
    Alias(Seq<char>),
    Name(Seq<char>),
}

impl View for Modifier {
    type V = ModifierModel;

    open spec fn view(&self) -> ModifierModel {
        match self {
            Modifier::Alias(s) => ModifierModel::Alias(s@),
            Modifier::Name(s) => ModifierModel::Name(s@),
        }
    }
}

impl DeepView for Modifier {
    type V = ModifierModel;

    open spec fn deep_view(&self) -> ModifierModel {
        self.view()
    }
}

/// One variant of the declared enum: its identifier, its documentation
/// lines in declaration order, its modifiers in attachment order, and the
/// number of associated data fields it carries.
#[derive(Debug)]
pub struct VariantDecl {
    pub ident: String,
    pub docs: Vec<String>,
    pub modifiers: Vec<Modifier>,
    pub fields: usize,
}

/// The mathematical model of a `VariantDecl`.
pub struct VariantDeclModel {
    pub ident: Seq<char>,
    pub docs: Seq<Seq<char>>,
    pub modifiers: Seq<ModifierModel>,
    pub fields: nat,
}

impl View for VariantDecl {
    type V = VariantDeclModel;

    open spec fn view(&self) -> VariantDeclModel {
        VariantDeclModel {
            ident: self.ident@,
            docs: self.docs.deep_view(),
            modifiers: self.modifiers.deep_view(),
            fields: self.fields as nat,
        }
    }
}

impl DeepView for VariantDecl {
    type V = VariantDeclModel;

    open spec fn deep_view(&self) -> VariantDeclModel {
        self.view()
    }
}

/// The declared enum: its identifier and its variants in declaration order.
#[derive(Debug)]
pub struct EnumDecl {
    pub ident: String,
    pub variants: Vec<VariantDecl>,
}

/// The mathematical model of an `EnumDecl`.
pub struct EnumDeclModel {
    pub ident: Seq<char>,
    pub variants: Seq<VariantDeclModel>,
}

impl View for EnumDecl {
    type V = EnumDeclModel;

    open spec fn view(&self) -> EnumDeclModel {
        EnumDeclModel { ident: self.ident@, variants: self.variants.deep_view() }
    }
}

/// The spelling list that results from applying the modifiers, in order, to
/// an initial spelling list: `Alias` appends its text, `Name` overwrites
/// position 0 (the canonical spelling).
pub open spec fn apply_modifiers(init: Seq<Seq<char>>, mods: Seq<ModifierModel>) -> Seq<Seq<char>>
    decreases mods.len(),
{
    if mods.len() == 0 {
        init
    } else {
        let rest = apply_modifiers(init, mods.drop_last());
        match mods.last() {
            ModifierModel::Alias(a) => rest.push(a),
            ModifierModel::Name(n) => rest.update(0, n),
        }
    }
}

/// The spellings of one variant: its identifier at position 0, then its
/// modifiers applied in attachment order.
pub open spec fn spellings_of(v: VariantDeclModel) -> Seq<Seq<char>> {
    apply_modifiers(seq![v.ident], v.modifiers)
}

/// The canonical spelling a variant renders to: the text of the last `Name`
/// modifier, or the identifier itself when no `Name` modifier is present.
pub open spec fn canonical_of(ident: Seq<char>, mods: Seq<ModifierModel>) -> Seq<char>
    decreases mods.len(),
{
    if mods.len() == 0 {
        ident
    } else {
        match mods.last() {
            ModifierModel::Name(n) => n,
            ModifierModel::Alias(_) => canonical_of(ident, mods.drop_last()),
        }
    }
}

/// The alias texts among the modifiers, in attachment order.
pub open spec fn aliases_of(mods: Seq<ModifierModel>) -> Seq<Seq<char>>
    decreases mods.len(),
{
    if mods.len() == 0 {
        Seq::empty()
    } else {
        match mods.last() {
            ModifierModel::Alias(a) => aliases_of(mods.drop_last()).push(a),
            ModifierModel::Name(_) => aliases_of(mods.drop_last()),
        }
    }
}

/// True when some `Name` modifier is present.
pub open spec fn has_name(mods: Seq<ModifierModel>) -> bool
    decreases mods.len(),
{
    if mods.len() == 0 {
        false
    } else {
        mods.last() is Name || has_name(mods.drop_last())
    }
}

/// A variant's spelling list is exactly its canonical spelling followed by
/// its aliases in attachment order.
pub proof fn lemma_spellings_structure(ident: Seq<char>, mods: Seq<ModifierModel>)
    ensures
        apply_modifiers(seq![ident], mods) == seq![canonical_of(ident, mods)] + aliases_of(mods),
    decreases mods.len(),
{
    if mods.len() == 0 {
        assert(apply_modifiers(seq![ident], mods) =~= seq![canonical_of(ident, mods)]
            + aliases_of(mods));
    } else {
        lemma_spellings_structure(ident, mods.drop_last());
        let prev = apply_modifiers(seq![ident], mods.drop_last());
        match mods.last() {
            ModifierModel::Alias(a) => {
                assert(prev.push(a) =~= seq![canonical_of(ident, mods)] + aliases_of(mods));
            },
            ModifierModel::Name(n) => {
                assert(prev.update(0, n) =~= seq![canonical_of(ident, mods)] + aliases_of(mods));
            },
        }
    }
}

/// A variant has one spelling for itself plus one per alias modifier.
pub proof fn lemma_spelling_count(ident: Seq<char>, mods: Seq<ModifierModel>)
    ensures
        apply_modifiers(seq![ident], mods).len() == 1 + aliases_of(mods).len(),
{
    lemma_spellings_structure(ident, mods);
}

} // verus!
