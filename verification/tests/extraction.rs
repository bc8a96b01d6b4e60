use wsmux::user::UserUuid;

#[test]
fn extracts_lowercase_uuid_normalized_to_uppercase() {
    let u = UserUuid::from_query_string("uuid=550e8400-e29b-41d4-a716-446655440000").unwrap();
    assert_eq!(u.as_str(), "550E8400-E29B-41D4-A716-446655440000");
}

#[test]
fn extracts_uppercase_uuid() {
    let u = UserUuid::from_query_string("UUID=550E8400-E29B-41D4-A716-446655440000").unwrap();
    assert_eq!(u.as_str(), "550E8400-E29B-41D4-A716-446655440000");
}

#[test]
fn extracts_mixed_case_key_and_value() {
    let u = UserUuid::from_query_string("UuId=550e8400-E29B-41d4-A716-446655440000").unwrap();
    assert_eq!(u.as_str(), "550E8400-E29B-41D4-A716-446655440000");
}

#[test]
fn extracts_from_longer_query_string() {
    let u =
        UserUuid::from_query_string("name=alice&uuid=123e4567-e89b-42d3-8456-426614174000&x=1")
            .unwrap();
    assert_eq!(u.as_str(), "123E4567-E89B-42D3-8456-426614174000");
}

#[test]
fn first_pair_wins() {
    let q = "uuid=550e8400-e29b-41d4-a716-446655440000&uuid=660e8400-e29b-41d4-b716-446655440000";
    let u = UserUuid::from_query_string(q).unwrap();
    assert_eq!(u.as_str(), "550E8400-E29B-41D4-A716-446655440000");
}

#[test]
fn variant_digits_accepted() {
    for v in ["8", "9", "a", "b"] {
        let q = format!("uuid=550e8400-e29b-41d4-{}716-446655440000", v);
        let u = UserUuid::from_query_string(&q).unwrap();
        assert_eq!(
            u.as_str(),
            format!("550E8400-E29B-41D4-{}716-446655440000", v.to_uppercase())
        );
    }
}

#[test]
fn rejects_missing_key() {
    assert!(UserUuid::from_query_string("name=alice").is_none());
    assert!(UserUuid::from_query_string("").is_none());
    assert!(
        UserUuid::from_query_string("id=550e8400-e29b-41d4-a716-446655440000&name=x").is_none()
    );
}

#[test]
fn rejects_wrong_version_digit() {
    assert!(
        UserUuid::from_query_string("uuid=550e8400-e29b-51d4-a716-446655440000").is_none()
    );
}

#[test]
fn rejects_wrong_variant_digit() {
    assert!(
        UserUuid::from_query_string("uuid=550e8400-e29b-41d4-c716-446655440000").is_none()
    );
}

#[test]
fn rejects_truncated_value() {
    assert!(UserUuid::from_query_string("uuid=550e8400-e29b-41d4-a716-44665544000").is_none());
    assert!(UserUuid::from_query_string("uuid=550e8400").is_none());
}

#[test]
fn rejects_non_hex_characters() {
    assert!(
        UserUuid::from_query_string("uuid=550g8400-e29b-41d4-a716-446655440000").is_none()
    );
}

#[test]
fn key_found_anywhere_in_the_string() {
    let u = UserUuid::from_query_string("xuuid=550e8400-e29b-41d4-a716-446655440000").unwrap();
    assert_eq!(u.as_str(), "550E8400-E29B-41D4-A716-446655440000");
}

#[test]
fn equality_of_extracted_identifiers() {
    let a = UserUuid::from_query_string("uuid=550e8400-e29b-41d4-a716-446655440000").unwrap();
    let b = UserUuid::from_query_string("UUID=550E8400-E29B-41D4-A716-446655440000").unwrap();
    let c = UserUuid::from_query_string("uuid=660e8400-e29b-41d4-a716-446655440000").unwrap();
    assert_eq!(a, b);
    assert_ne!(a, c);
}
