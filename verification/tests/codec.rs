//! The record codec: round-trips, required-field errors, and the
//! best-effort reading of optional fields.

use sinln::digits::{parse_u64_decimal, u64_to_decimal};
use sinln::error::{DecodeError, FieldKind, RuntimeError};
use sinln::row::{AttrValue, Row};
use sinln::serialize::ServerSerialize;
use sinln::types::{Member, Topic};

fn full_member() -> Member {
    Member {
        id: Some("2024-01-02-03:04:05-42".to_string()),
        name: "Ada".to_string(),
        email: "ada@example.com".to_string(),
        address: Some("1 Main St".to_string()),
        mobile: Some(447700900123),
        subscriptions: vec!["news".to_string(), "promo".to_string()],
    }
}

#[test]
fn round_trip_member_all_fields() {
    let member = full_member();
    let row = member.into_row();
    let back = Member::from_row(&row).expect("decoding an encoded member");
    assert_eq!(back.id, member.id);
    assert_eq!(back.name, member.name);
    assert_eq!(back.email, member.email);
    assert_eq!(back.address, member.address);
    assert_eq!(back.mobile, member.mobile);
    assert_eq!(back.subscriptions, member.subscriptions);
}

#[test]
fn round_trip_member_optional_fields_absent() {
    let member = Member {
        id: Some("m1".to_string()),
        name: "Bo".to_string(),
        email: "bo@example.com".to_string(),
        address: None,
        mobile: None,
        subscriptions: vec![],
    };
    let row = member.into_row();
    assert!(row.get("address").is_none());
    assert!(row.get("mobile").is_none());
    let back = Member::from_row(&row).expect("decoding an encoded member");
    assert_eq!(back.id, member.id);
    assert_eq!(back.address, None);
    assert_eq!(back.mobile, None);
    assert_eq!(back.subscriptions, Vec::<String>::new());
}

#[test]
fn round_trip_topic() {
    let topic = Topic {
        id: Some("t1".to_string()),
        name: "News".to_string(),
        endpoint: "news@example.com".to_string(),
        default: true,
    };
    let row = topic.into_row();
    let back = Topic::from_row(&row).expect("decoding an encoded topic");
    assert_eq!(back.id, topic.id);
    assert_eq!(back.name, topic.name);
    assert_eq!(back.endpoint, topic.endpoint);
    assert_eq!(back.default, topic.default);
}

#[test]
fn encode_without_id_omits_the_field() {
    let member = Member {
        id: None,
        name: "Cy".to_string(),
        email: "cy@example.com".to_string(),
        address: None,
        mobile: None,
        subscriptions: vec![],
    };
    let row = member.into_row();
    assert!(row.get("id").is_none());
    match Member::from_row(&row) {
        Err(DecodeError::MissingField(k)) => assert_eq!(k, "id"),
        other => panic!("expected a missing id, got {:?}", other),
    }
}

#[test]
fn decode_missing_required_field() {
    let mut row = Row::new();
    row.push_field("id", AttrValue::S("m1".to_string()));
    row.push_field("name", AttrValue::S("Dee".to_string()));
    match Member::from_row(&row) {
        Err(DecodeError::MissingField(k)) => assert_eq!(k, "email"),
        other => panic!("expected a missing email, got {:?}", other),
    }
}

#[test]
fn decode_wrong_type_on_required_field() {
    let mut row = Row::new();
    row.push_field("id", AttrValue::Bool(true));
    match Member::from_row(&row) {
        Err(DecodeError::WrongType(k, kind)) => {
            assert_eq!(k, "id");
            assert_eq!(kind, FieldKind::Text);
        },
        other => panic!("expected a mistyped id, got {:?}", other),
    }
}

#[test]
fn decode_wrong_type_on_optional_field_degrades_to_none() {
    let mut row = Row::new();
    row.push_field("id", AttrValue::S("m1".to_string()));
    row.push_field("name", AttrValue::S("Eli".to_string()));
    row.push_field("email", AttrValue::S("eli@example.com".to_string()));
    row.push_field("address", AttrValue::Bool(false));
    row.push_field("mobile", AttrValue::S("not a number".to_string()));
    let back = Member::from_row(&row).expect("optional problems must not fail decoding");
    assert_eq!(back.address, None);
    assert_eq!(back.mobile, None);
}

#[test]
fn decode_unparsable_number_degrades_to_none() {
    let mut row = Row::new();
    row.push_field("id", AttrValue::S("m1".to_string()));
    row.push_field("name", AttrValue::S("Fay".to_string()));
    row.push_field("email", AttrValue::S("fay@example.com".to_string()));
    row.push_field("mobile", AttrValue::N("12x4".to_string()));
    let back = Member::from_row(&row).expect("an unparsable number must not fail decoding");
    assert_eq!(back.mobile, None);
}

#[test]
fn decode_missing_bool_on_topic() {
    let mut row = Row::new();
    row.push_field("id", AttrValue::S("t1".to_string()));
    row.push_field("name", AttrValue::S("News".to_string()));
    row.push_field("endpoint", AttrValue::S("news@example.com".to_string()));
    match Topic::from_row(&row) {
        Err(DecodeError::MissingField(k)) => assert_eq!(k, "default"),
        other => panic!("expected a missing default flag, got {:?}", other),
    }
}

#[test]
fn decode_mistyped_bool_on_topic() {
    let mut row = Row::new();
    row.push_field("id", AttrValue::S("t1".to_string()));
    row.push_field("name", AttrValue::S("News".to_string()));
    row.push_field("endpoint", AttrValue::S("news@example.com".to_string()));
    row.push_field("default", AttrValue::S("yes".to_string()));
    match Topic::from_row(&row) {
        Err(e) => {
            match &e {
                DecodeError::WrongType(k, kind) => {
                    assert_eq!(k, "default");
                    assert_eq!(*kind, FieldKind::Boolean);
                },
                other => panic!("expected a mistyped default flag, got {:?}", other),
            }
            assert_eq!(e.into_runtime_error().details(), "Key requires a boolean: default");
        },
        other => panic!("expected a mistyped default flag, got {:?}", other),
    }
}

#[test]
fn decimal_formatting_is_canonical() {
    assert_eq!(u64_to_decimal(0), "0");
    assert_eq!(u64_to_decimal(7), "7");
    assert_eq!(u64_to_decimal(1040), "1040");
    assert_eq!(u64_to_decimal(u64::MAX), "18446744073709551615");
}

#[test]
fn decimal_parsing() {
    assert_eq!(parse_u64_decimal("0"), Some(0));
    assert_eq!(parse_u64_decimal("0012"), Some(12));
    assert_eq!(parse_u64_decimal("18446744073709551615"), Some(u64::MAX));
    assert_eq!(parse_u64_decimal("18446744073709551616"), None);
    assert_eq!(parse_u64_decimal(""), None);
    assert_eq!(parse_u64_decimal("12a"), None);
    assert_eq!(parse_u64_decimal("-5"), None);
}

#[test]
fn runtime_error_carries_its_message() {
    assert_eq!(RuntimeError::from_str("boom").details(), "boom");
    assert_eq!(RuntimeError::from_string("later".to_string()).details(), "later");
}

#[test]
fn decode_errors_render_the_historical_messages() {
    let missing = DecodeError::MissingField("id".to_string());
    assert_eq!(missing.into_runtime_error().details(), "No value for: id");
    let wrong = DecodeError::WrongType("name".to_string(), FieldKind::Text);
    assert_eq!(wrong.into_runtime_error().details(), "Key requires a string: name");
    let wrong_bool = DecodeError::WrongType("default".to_string(), FieldKind::Boolean);
    assert_eq!(wrong_bool.into_runtime_error().details(), "Key requires a boolean: default");
}

#[test]
fn decimal_round_trip() {
    for n in [0u64, 1, 9, 10, 99, 1_000_000, u64::MAX] {
        assert_eq!(parse_u64_decimal(&u64_to_decimal(n)), Some(n));
    }
}
