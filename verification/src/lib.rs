//! Generation of command-line argument enums: given the declaration of an
//! enum with unit variants, optional per-variant documentation lines and
//! optional `alias` / `name` modifiers, this library builds the name table
//! that maps accepted spellings to variants and provides the semantics of
//! the generated artifacts: case-insensitive parsing from text, rendering
//! to the canonical spelling, and the introspection lists of accepted
//! spellings and per-variant descriptions.

pub mod attr;
pub mod decl;
pub mod laws;
pub mod table;
pub mod text;
