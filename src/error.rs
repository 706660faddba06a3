//! Diagnostics that replace the generated code.
use vstd::prelude::*;
use crate::token::Delim;

verus! {

/// The keyword list that an unrecognized property is reported against.
#[derive(Clone, Copy, Debug, PartialEq, Eq, Structural)]
pub enum Level {
    /// `cloned`, `default`, `expr`, `into`, `iter`.
    Field,
    /// `prefix`, `visibility`, `vis`.
    Enum,
    /// `all`, `default`, `into` inside the parentheses after a constructor name.
    Nested,
}

/// A malformed attribute. `at` is the position, in the attribute's argument
/// tokens, of the offending token (the number of tokens where they ended too
/// early).
#[derive(Clone, Copy, Debug, PartialEq, Eq, Structural)]
pub enum ParseError {
    /// An unrecognized keyword where a property name was expected.
    InvalidProperty { at: usize, level: Level },
    /// The field property `impl`, now named `into`.
    RenamedProperty { at: usize },
    /// The field property `method`, which no longer exists.
    RemovedProperty { at: usize },
    /// A group with another delimiter than the one required.
    DelimiterMismatch { at: usize, expected: Delim },
    /// A token that the grammar does not allow there.
    Syntax { at: usize },
    /// A `ctor` attribute without a parenthesized argument list.
    MissingArguments,
}

/// Why no constructor is generated for a type.
#[derive(Clone, Debug, PartialEq, Eq)]
pub enum CtorError {
    /// The `ctor` attribute of the type.
    TypeAttribute { error: ParseError },
    /// The `ctor` attribute of an enum variant, or of a union field.
    VariantAttribute { variant: usize, error: ParseError },
    /// The `ctor` attribute of a field (of the given variant, in an enum).
    FieldAttribute { variant: Option<usize>, field: usize, error: ParseError },
    /// The default constructor would need the listed fields as parameters.
    DefaultConstructorConflict { variant: Option<usize>, fields: Vec<usize> },
}

} // verus!
