use spatialos_codegen::ids::{Authority, EntityId, RequestId};
use spatialos_codegen::text::{i64_to_dec, u32_to_dec, u64_to_dec};

#[test]
fn entity_id_validity_and_rendering() {
    assert!(EntityId::new(1).is_valid());
    assert!(!EntityId::new(0).is_valid());
    assert!(!EntityId::new(-5).is_valid());
    assert_eq!(EntityId::new(42).to_string(), "EntityId: 42");
    assert_eq!(EntityId::new(-42).to_string(), "EntityId: -42");
}

pub struct SomeRequest;

#[test]
fn request_id_rendering() {
    let id: RequestId<SomeRequest> = RequestId::new(7);
    assert_eq!(id.to_string(), "RequestId: 7");
}

#[test]
fn authority_states() {
    assert!(Authority::Authoritative.has_authority());
    assert!(Authority::AuthorityLossImminent.has_authority());
    assert!(!Authority::NotAuthoritative.has_authority());
    assert_eq!(Authority::from(0), Authority::NotAuthoritative);
    assert_eq!(Authority::from(1), Authority::Authoritative);
    assert_eq!(Authority::from(2), Authority::AuthorityLossImminent);
}

#[test]
fn decimal_rendering() {
    assert_eq!(u64_to_dec(0), "0");
    assert_eq!(u64_to_dec(10), "10");
    assert_eq!(u64_to_dec(18446744073709551615), "18446744073709551615");
    assert_eq!(u32_to_dec(4294967295), "4294967295");
    assert_eq!(i64_to_dec(-1), "-1");
    assert_eq!(i64_to_dec(-9223372036854775808), "-9223372036854775808");
    assert_eq!(i64_to_dec(9223372036854775807), "9223372036854775807");
}
