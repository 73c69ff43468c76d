use arg_enum::attr::{parse_modifiers, AttrError};
use arg_enum::decl::Modifier;

#[test]
fn single_alias() {
    let mods = parse_modifiers("(alias = \"Cat\")").unwrap();
    assert_eq!(mods.len(), 1);
    assert!(matches!(&mods[0], Modifier::Alias(s) if s == "Cat"));
}

#[test]
fn single_name() {
    let mods = parse_modifiers("(name = \"Baz\")").unwrap();
    assert_eq!(mods.len(), 1);
    assert!(matches!(&mods[0], Modifier::Name(s) if s == "Baz"));
}

#[test]
fn several_modifiers_in_source_order() {
    let mods = parse_modifiers("(alias = \"Cat\", name = \"Dog\", alias = \"Eel\")").unwrap();
    assert_eq!(mods.len(), 3);
    assert!(matches!(&mods[0], Modifier::Alias(s) if s == "Cat"));
    assert!(matches!(&mods[1], Modifier::Name(s) if s == "Dog"));
    assert!(matches!(&mods[2], Modifier::Alias(s) if s == "Eel"));
}

#[test]
fn trailing_comma_and_empty_block() {
    let mods = parse_modifiers("(alias = \"Cat\",)").unwrap();
    assert_eq!(mods.len(), 1);
    let mods = parse_modifiers("()").unwrap();
    assert_eq!(mods.len(), 0);
}

#[test]
fn unknown_key_is_rejected() {
    let err = parse_modifiers("(rename = \"Cat\")").unwrap_err();
    assert!(matches!(&err, AttrError::UnknownKey(k) if k == "rename"));
}

#[test]
fn missing_assignment_is_rejected() {
    let err = parse_modifiers("(alias)").unwrap_err();
    assert!(matches!(&err, AttrError::MissingAssignment(k) if k == "alias"));
    let err = parse_modifiers("(alias \"Cat\")").unwrap_err();
    assert!(matches!(&err, AttrError::MissingAssignment(k) if k == "alias"));
}

#[test]
fn malformed_blocks_are_rejected() {
    assert!(matches!(
        parse_modifiers("alias = \"Cat\""),
        Err(AttrError::Malformed)
    ));
    assert!(matches!(
        parse_modifiers("(alias = \"Cat"),
        Err(AttrError::Malformed)
    ));
    assert!(matches!(
        parse_modifiers("(alias = Cat)"),
        Err(AttrError::Malformed)
    ));
    assert!(matches!(
        parse_modifiers("(alias = \"Cat\") extra"),
        Err(AttrError::Malformed)
    ));
}
