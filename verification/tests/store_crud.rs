//! The CRUD engine over the table store: id assignment, replace
//! semantics, deletes of unknown ids, and best-effort listing.

use sinln::api::{DeleteRequest, ListRequest, UpdateRequest};
use sinln::crud::{delete_items, list_items, make_id, update_item, update_items};
use sinln::row::{AttrValue, Row};
use sinln::store::Table;
use sinln::types::Member;

fn member(id: Option<&str>, name: &str) -> Member {
    Member {
        id: id.map(|s| s.to_string()),
        name: name.to_string(),
        email: format!("{}@example.com", name),
        address: None,
        mobile: None,
        subscriptions: vec![],
    }
}

fn id_has_assigned_shape(id: &str) {
    assert!(id.len() >= 21, "id too short: {:?}", id);
    let bytes = id.as_bytes();
    // A present-day year is four digits, so the timestamp prefix is the
    // first 20 characters: YYYY-MM-DD-HH:MM:SS-.
    for (i, b) in bytes[..20].iter().enumerate() {
        match i {
            4 | 7 | 10 | 19 => assert_eq!(*b, b'-', "separator at {} in {:?}", i, id),
            13 | 16 => assert_eq!(*b, b':', "separator at {} in {:?}", i, id),
            _ => assert!(b.is_ascii_digit(), "digit at {} in {:?}", i, id),
        }
    }
    let suffix = &id[20..];
    assert!(!suffix.is_empty(), "no numeric suffix: {:?}", id);
    assert!(suffix.len() <= 10, "suffix too long: {:?}", id);
    assert!(suffix.chars().all(|c| c.is_ascii_digit()), "suffix not numeric: {:?}", id);
}

#[test]
fn update_with_no_id_assigns_one() {
    let mut table = Table::new();
    let st = update_item(&mut table, member(None, "ada"));
    let id = st.current.id.expect("an update must assign an id");
    id_has_assigned_shape(&id);
    assert!(st.replaced.is_none());
}

#[test]
fn assigned_ids_have_the_documented_shape() {
    let id = make_id();
    id_has_assigned_shape(&id);
}

#[test]
fn update_with_existing_id_keeps_it() {
    let mut table = Table::new();
    let st = update_item(&mut table, member(Some("m1"), "ada"));
    assert_eq!(st.current.id.as_deref(), Some("m1"));
    assert!(st.replaced.is_none());
}

#[test]
fn update_replace_is_idempotent() {
    let mut table = Table::new();
    let first = update_item(&mut table, member(Some("m1"), "ada"));
    let second = update_item(&mut table, first.current.duplicate());
    let replaced = second.replaced.expect("the second update must report a previous value");
    assert_eq!(replaced.id, first.current.id);
    assert_eq!(replaced.name, first.current.name);
    assert_eq!(replaced.email, first.current.email);
    assert_eq!(replaced.address, first.current.address);
    assert_eq!(replaced.mobile, first.current.mobile);
    assert_eq!(replaced.subscriptions, first.current.subscriptions);
}

#[test]
fn update_overwrites_all_fields() {
    let mut table = Table::new();
    update_item(&mut table, member(Some("m1"), "ada"));
    let mut replacement = member(Some("m1"), "beth");
    replacement.mobile = Some(12345);
    let st = update_item(&mut table, replacement);
    assert_eq!(st.replaced.expect("previous value").name, "ada");
    let listing = list_items::<Member>(ListRequest {}, &table).expect("listing never fails");
    assert_eq!(listing.items.len(), 1);
    assert_eq!(listing.items[0].name, "beth");
    assert_eq!(listing.items[0].mobile, Some(12345));
}

#[test]
fn update_items_processes_the_batch_in_order() {
    let mut table = Table::new();
    let request = UpdateRequest {
        values: vec![member(Some("m1"), "ada"), member(None, "beth"), member(Some("m1"), "cy")],
    };
    let response = update_items(request, &mut table).expect("updates never fail here");
    assert_eq!(response.updates.len(), 3);
    assert!(response.updates[0].replaced.is_none());
    assert!(response.updates[1].replaced.is_none());
    let replaced = response.updates[2].replaced.as_ref().expect("m1 was already stored");
    assert_eq!(replaced.name, "ada");
    assert_eq!(response.updates[2].current.name, "cy");
    id_has_assigned_shape(response.updates[1].current.id.as_deref().unwrap());
}

#[test]
fn delete_of_unknown_id_returns_none_and_changes_nothing() {
    let mut table = Table::new();
    update_item(&mut table, member(Some("m1"), "ada"));
    let request = DeleteRequest { ids: vec!["missing".to_string()] };
    let response = delete_items::<Member>(request, &mut table).expect("deletes never fail here");
    assert_eq!(response.removed.len(), 1);
    assert!(response.removed[0].is_none());
    let listing = list_items::<Member>(ListRequest {}, &table).expect("listing never fails");
    assert_eq!(listing.items.len(), 1);
}

#[test]
fn delete_returns_the_removed_record() {
    let mut table = Table::new();
    update_item(&mut table, member(Some("m1"), "ada"));
    update_item(&mut table, member(Some("m2"), "beth"));
    let request = DeleteRequest { ids: vec!["m2".to_string(), "m2".to_string()] };
    let response = delete_items::<Member>(request, &mut table).expect("deletes never fail here");
    assert_eq!(response.removed.len(), 2);
    assert_eq!(response.removed[0].as_ref().expect("first delete sees the row").name, "beth");
    assert!(response.removed[1].is_none(), "the second delete of one id finds nothing");
    let listing = list_items::<Member>(ListRequest {}, &table).expect("listing never fails");
    assert_eq!(listing.items.len(), 1);
    assert_eq!(listing.items[0].name, "ada");
}

#[test]
fn list_drops_only_the_malformed_row() {
    let mut table = Table::new();
    update_item(&mut table, member(Some("m1"), "ada"));
    update_item(&mut table, member(Some("m2"), "beth"));
    let mut malformed = Row::new();
    malformed.push_field("id", AttrValue::S("m3".to_string()));
    malformed.push_field("name", AttrValue::S("no email".to_string()));
    table.put(malformed);
    let listing = list_items::<Member>(ListRequest {}, &table).expect("listing never fails");
    assert_eq!(listing.items.len(), 2, "exactly the malformed row is dropped");
    let names: Vec<&str> = listing.items.iter().map(|m| m.name.as_str()).collect();
    assert_eq!(names, vec!["ada", "beth"]);
}

#[test]
fn list_of_empty_table_is_empty() {
    let table = Table::new();
    let listing = list_items::<Member>(ListRequest {}, &table).expect("listing never fails");
    assert!(listing.items.is_empty());
}
