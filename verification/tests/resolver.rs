use tr064_bindgen::error::GenError;
use tr064_bindgen::types::{resolve_type_tag, ResolvedType};

#[test]
fn boolean_tag_resolves_to_boolean() {
    assert_eq!(resolve_type_tag("boolean"), Ok(ResolvedType::Boolean));
}

#[test]
fn unsigned_tags_resolve_to_unsigned_integer() {
    assert_eq!(resolve_type_tag("ui1"), Ok(ResolvedType::UnsignedInteger));
    assert_eq!(resolve_type_tag("ui2"), Ok(ResolvedType::UnsignedInteger));
    assert_eq!(resolve_type_tag("ui4"), Ok(ResolvedType::UnsignedInteger));
}

#[test]
fn signed_tags_resolve_to_signed_integer() {
    assert_eq!(resolve_type_tag("i1"), Ok(ResolvedType::SignedInteger));
    assert_eq!(resolve_type_tag("i2"), Ok(ResolvedType::SignedInteger));
    assert_eq!(resolve_type_tag("i4"), Ok(ResolvedType::SignedInteger));
}

#[test]
fn text_like_tags_resolve_to_text() {
    assert_eq!(resolve_type_tag("string"), Ok(ResolvedType::Text));
    assert_eq!(resolve_type_tag("uuid"), Ok(ResolvedType::Text));
    assert_eq!(resolve_type_tag("dateTime"), Ok(ResolvedType::Text));
}

#[test]
fn unknown_tag_is_reported_verbatim() {
    assert_eq!(
        resolve_type_tag("bogus-tag"),
        Err(GenError::UnmappedType("bogus-tag".to_string()))
    );
}

#[test]
fn resolver_is_case_sensitive() {
    assert!(matches!(
        resolve_type_tag("Boolean"),
        Err(GenError::UnmappedType(_))
    ));
}

#[test]
fn resolved_types_render_their_target_names() {
    assert_eq!(ResolvedType::Boolean.target_type(), "bool");
    assert_eq!(ResolvedType::UnsignedInteger.target_type(), "u32");
    assert_eq!(ResolvedType::SignedInteger.target_type(), "i32");
    assert_eq!(ResolvedType::Text.target_type(), "String");
}
