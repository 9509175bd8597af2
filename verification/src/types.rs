//! The type resolver: maps a schema's declared primitive data-type tags onto
//! a closed set of semantic target types.
//!
//! The mapping is total over the recognized tags and deliberately lossy —
//! bit-width and exact signedness distinctions are collapsed into two integer
//! buckets — because the generated bindings only need a representable type.
//! A tag outside the table is a hard, reportable error, never a silent guess.

use vstd::prelude::*;
use vstd::string::*;
use crate::error::GenError;
use crate::text::str_eq;

verus! {

/// The closed set of semantic types a state variable can resolve to.
#[derive(Clone, Copy, Debug, PartialEq, Eq, Structural)]
pub enum ResolvedType {
    Boolean,
    UnsignedInteger,
    SignedInteger,
    Text,
}

/// The resolver's table: which semantic type, if any, a raw tag maps to.
pub open spec fn resolve_tag_spec(tag: Seq<char>) -> Option<ResolvedType> {
    if tag == "boolean"@ {
        Some(ResolvedType::Boolean)
    } else if tag == "ui1"@ || tag == "ui2"@ || tag == "ui4"@ {
        Some(ResolvedType::UnsignedInteger)
    } else if tag == "i1"@ || tag == "i2"@ || tag == "i4"@ {
        Some(ResolvedType::SignedInteger)
    } else if tag == "string"@ || tag == "uuid"@ || tag == "dateTime"@ {
        Some(ResolvedType::Text)
    } else {
        None
    }
}

impl ResolvedType {
    /// The name this semantic type renders to in generated source text.
    pub open spec fn target_type_spec(self) -> Seq<char> {
        match self {
            ResolvedType::Boolean => "bool"@,
            ResolvedType::UnsignedInteger => "u32"@,
            ResolvedType::SignedInteger => "i32"@,
            ResolvedType::Text => "String"@,
        }
    }

    /// Renders the semantic type's target-language name.
    pub fn target_type(&self) -> (r: String)
        ensures
            r@ == self.target_type_spec(),
    {
        match self {
            ResolvedType::Boolean => String::from_str("bool"),
            ResolvedType::UnsignedInteger => String::from_str("u32"),
            ResolvedType::SignedInteger => String::from_str("i32"),
            ResolvedType::Text => String::from_str("String"),
        }
    }
}

/// Resolves a raw data-type tag, reporting an unrecognized tag verbatim.
pub fn resolve_type_tag(tag: &str) -> (r: Result<ResolvedType, GenError>)
    ensures
        resolve_tag_spec(tag@) matches Some(t) ==> (r matches Ok(v) && v == t),
        resolve_tag_spec(tag@) is None ==> (r matches Err(e) && e matches GenError::UnmappedType(m)
            && m@ == tag@),
{
    if str_eq(tag, "boolean") {
        Ok(ResolvedType::Boolean)
    } else if str_eq(tag, "ui1") || str_eq(tag, "ui2") || str_eq(tag, "ui4") {
        Ok(ResolvedType::UnsignedInteger)
    } else if str_eq(tag, "i1") || str_eq(tag, "i2") || str_eq(tag, "i4") {
        Ok(ResolvedType::SignedInteger)
    } else if str_eq(tag, "string") || str_eq(tag, "uuid") || str_eq(tag, "dateTime") {
        Ok(ResolvedType::Text)
    } else {
        Err(GenError::UnmappedType(String::from_str(tag)))
    }
}

} // verus!
