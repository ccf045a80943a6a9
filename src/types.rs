use vstd::prelude::*;

verus! {

/// The type tags of the Relieve language.
#[derive(Debug, Clone, Copy, PartialEq, Eq, Structural)]
pub enum RelieveType {
    String,
    Integer,
    Boolean,
    /// The type of a function that returns nothing.
    Unit,
    /// Reserved for types that are not resolved yet; never produced by the builder.
    Unknown,
}

/// The type tag that a type name spells, if it is one of the four recognised spellings.
pub open spec fn type_of_name(s: Seq<char>) -> Option<RelieveType> {
    if s == "Int"@ {
        Some(RelieveType::Integer)
    } else if s == "String"@ {
        Some(RelieveType::String)
    } else if s == "Bool"@ {
        Some(RelieveType::Boolean)
    } else if s == "Res"@ {
        Some(RelieveType::Unit)
    } else {
        None
    }
}

/// The message of the error for a type name that is not recognised.
pub open spec fn unknown_type_message(s: Seq<char>) -> Seq<char> {
    "Unknown type: "@ + s
}

pub(crate) fn text_is(s: &str, lit: &str) -> (r: bool)
    ensures
        r == (s@ == lit@),
{
    let a = String::from_str(s);
    let b = String::from_str(lit);
    a == b
}

/// Resolves a type name to its type tag; any other spelling is an unknown-type error.
pub fn resolve_type_name(text: &str) -> (r: Result<RelieveType, String>)
    ensures
        match r {
            Ok(t) => type_of_name(text@) == Some(t),
            Err(m) => type_of_name(text@) is None && m@ == unknown_type_message(text@),
        },
{
    if text_is(text, "Int") {
        Ok(RelieveType::Integer)
    } else if text_is(text, "String") {
        Ok(RelieveType::String)
    } else if text_is(text, "Bool") {
        Ok(RelieveType::Boolean)
    } else if text_is(text, "Res") {
        Ok(RelieveType::Unit)
    } else {
        Err(String::from_str("Unknown type: ").concat(text))
    }
}

} // verus!
