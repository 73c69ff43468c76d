use arg_enum::decl::{EnumDecl, Modifier, VariantDecl};
use arg_enum::table::NameTable;

// enum Foo { Bar, /// Foo
//            Baz }
fn foo_decl() -> EnumDecl {
    EnumDecl {
        ident: "Foo".to_string(),
        variants: vec![
            VariantDecl {
                ident: "Bar".to_string(),
                docs: vec![],
                modifiers: vec![],
                fields: 0,
            },
            VariantDecl {
                ident: "Baz".to_string(),
                docs: vec![" Foo".to_string()],
                modifiers: vec![],
                fields: 0,
            },
        ],
    }
}

// enum Bar { A, B, C with alias "Cat" }
fn bar_decl() -> EnumDecl {
    EnumDecl {
        ident: "Bar".to_string(),
        variants: vec![
            VariantDecl {
                ident: "A".to_string(),
                docs: vec![],
                modifiers: vec![],
                fields: 0,
            },
            VariantDecl {
                ident: "B".to_string(),
                docs: vec![],
                modifiers: vec![],
                fields: 0,
            },
            VariantDecl {
                ident: "C".to_string(),
                docs: vec![],
                modifiers: vec![Modifier::Alias("Cat".to_string())],
                fields: 0,
            },
        ],
    }
}

#[test]
fn parse() {
    let table = NameTable::build(&foo_decl()).unwrap();
    let v = table.parse_text("Baz").unwrap();
    assert_eq!(v, 1);
}

#[test]
fn variants() {
    let table = NameTable::build(&foo_decl()).unwrap();
    assert_eq!(table.variants(), vec!["Bar".to_string(), "Baz".to_string()]);
}

#[test]
fn enums_parse() {
    let table = NameTable::build(&bar_decl()).unwrap();
    let v = table.parse_text("Cat").unwrap();
    assert_eq!(v, 2);
}

#[test]
fn enums_variants() {
    let table = NameTable::build(&bar_decl()).unwrap();
    assert_eq!(
        table.variants(),
        vec![
            "A".to_string(),
            "B".to_string(),
            "C".to_string(),
            "Cat".to_string()
        ]
    );
}

#[test]
fn parse_is_case_insensitive() {
    let table = NameTable::build(&foo_decl()).unwrap();
    assert_eq!(table.parse_text("BAZ").unwrap(), 1);
    assert_eq!(table.parse_text("baz").unwrap(), 1);
    assert_eq!(table.parse_text("bAr").unwrap(), 0);
    let alias = NameTable::build(&bar_decl()).unwrap();
    assert_eq!(alias.parse_text("cat").unwrap(), 2);
    assert_eq!(alias.parse_text("CAT").unwrap(), 2);
}

#[test]
fn parse_failure_lists_all_spellings() {
    let table = NameTable::build(&foo_decl()).unwrap();
    let err = table.parse_text("Qux").unwrap_err();
    assert_eq!(err, "valid values: Bar ,Baz");
    let alias = NameTable::build(&bar_decl()).unwrap();
    let err = alias.parse_text("Dog").unwrap_err();
    assert_eq!(err, "valid values: A ,B ,C ,Cat");
}

#[test]
fn render_uses_canonical_spelling() {
    let table = NameTable::build(&bar_decl()).unwrap();
    assert_eq!(table.render(2), "C".to_string());
    assert_eq!(table.render(0), "A".to_string());
}

#[test]
fn name_override_replaces_canonical() {
    let decl = EnumDecl {
        ident: "Foo".to_string(),
        variants: vec![
            VariantDecl {
                ident: "A".to_string(),
                docs: vec![],
                modifiers: vec![],
                fields: 0,
            },
            VariantDecl {
                ident: "C".to_string(),
                docs: vec![],
                modifiers: vec![Modifier::Name("Baz".to_string())],
                fields: 0,
            },
        ],
    };
    let table = NameTable::build(&decl).unwrap();
    assert_eq!(table.variants(), vec!["A".to_string(), "Baz".to_string()]);
    assert_eq!(table.parse_text("Baz").unwrap(), 1);
    assert!(table.parse_text("C").is_err());
    assert_eq!(table.render(1), "Baz".to_string());
}

#[test]
fn descriptions_pair_spellings_with_docs() {
    let table = NameTable::build(&foo_decl()).unwrap();
    let descrs = table.descriptions();
    assert_eq!(descrs.len(), 2);
    assert_eq!(descrs[0].0, vec!["Bar".to_string()]);
    assert_eq!(descrs[0].1, Vec::<String>::new());
    assert_eq!(descrs[1].0, vec!["Baz".to_string()]);
    assert_eq!(descrs[1].1, vec![" Foo".to_string()]);
    let alias = NameTable::build(&bar_decl()).unwrap();
    let descrs = alias.descriptions();
    assert_eq!(descrs.len(), 3);
    assert_eq!(descrs[2].0, vec!["C".to_string(), "Cat".to_string()]);
}

#[test]
fn accepted_spellings_count() {
    // two variants, no aliases: two spellings; three variants, one alias: four.
    let table = NameTable::build(&foo_decl()).unwrap();
    assert_eq!(table.variants().len(), 2);
    let alias = NameTable::build(&bar_decl()).unwrap();
    assert_eq!(alias.variants().len(), 4);
    assert_eq!(alias.descriptions().len(), 3);
}

#[test]
fn invalid_applications() {
    let decl = EnumDecl {
        ident: "Foo".to_string(),
        variants: vec![
            VariantDecl {
                ident: "Bar".to_string(),
                docs: vec![],
                modifiers: vec![],
                fields: 0,
            },
            VariantDecl {
                ident: "Baz".to_string(),
                docs: vec![],
                modifiers: vec![],
                fields: 1,
            },
        ],
    };
    let err = NameTable::build(&decl).unwrap_err();
    assert_eq!(err.enum_ident, "Foo".to_string());
    assert_eq!(err.variant_ident, "Baz".to_string());
    assert_eq!(
        err.message(),
        "Only enum with unit variants are supported! \nVariant Foo::Baz is not an unit variant"
    );
}
