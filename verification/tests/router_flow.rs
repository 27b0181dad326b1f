//! The inbound router and the confirm-email flow: exact destination
//! matching, fail-open fallback, and dispatch to matched members.

use sinln::api::ConfirmEmailRequest;
use sinln::router::{confirm_email, find_topic_by_id, resolve_topic, route_inbound};
use sinln::types::{Member, Topic};

fn topic(id: &str, endpoint: &str, default: bool) -> Topic {
    Topic {
        id: Some(id.to_string()),
        name: format!("topic {}", id),
        endpoint: endpoint.to_string(),
        default,
    }
}

fn subscriber(name: &str, tag: &str) -> Member {
    Member {
        id: Some(format!("m-{}", name)),
        name: name.to_string(),
        email: format!("{}@example.com", name),
        address: None,
        mobile: None,
        subscriptions: vec![tag.to_string()],
    }
}

#[test]
fn resolution_is_exact_equality_first_match() {
    let topics = vec![
        topic("t1", "news@example.com", false),
        topic("t2", "promo@example.com", false),
        topic("t3", "news@example.com", false),
    ];
    let fallback = topic("t0", "fallback@example.com", true);
    let hit = resolve_topic(&topics, "news@example.com", &fallback);
    assert_eq!(hit.id.as_deref(), Some("t1"));
    let miss = resolve_topic(&topics, "news@example", &fallback);
    assert_eq!(miss.id.as_deref(), Some("t0"), "a prefix is no exact match");
}

#[test]
fn unmatched_destination_still_dispatches_to_the_fallback() {
    let topics = vec![topic("t1", "news@example.com", false)];
    let fallback = topic("t0", "fallback@example.com", true);
    let members = vec![subscriber("ada", "fallback"), subscriber("beth", "news")];
    let jobs = route_inbound(&topics, &members, "unknown@example.com", "msg-7", &fallback);
    assert_eq!(jobs.len(), 1, "the fallback dispatch still happens");
    assert_eq!(jobs[0].topic.id.as_deref(), Some("t0"));
    assert_eq!(jobs[0].member.name, "ada");
    assert_eq!(jobs[0].email_id, "msg-7");
    assert!(!jobs[0].confirm_link);
}

#[test]
fn matched_destination_dispatches_to_its_members() {
    let topics = vec![topic("t1", "news@example.com", false)];
    let fallback = topic("t0", "fallback@example.com", true);
    let members = vec![subscriber("ada", "fallback"), subscriber("beth", "news")];
    let jobs = route_inbound(&topics, &members, "news@example.com", "msg-8", &fallback);
    assert_eq!(jobs.len(), 1);
    assert_eq!(jobs[0].topic.id.as_deref(), Some("t1"));
    assert_eq!(jobs[0].member.name, "beth");
}

#[test]
fn find_by_id_picks_the_first_match() {
    let topics = vec![topic("t1", "a@example.com", false), topic("t2", "b@example.com", false)];
    let hit = find_topic_by_id(&topics, "t2").expect("t2 is stored");
    assert_eq!(hit.endpoint, "b@example.com");
    assert!(find_topic_by_id(&topics, "t9").is_none());
}

#[test]
fn confirm_email_queues_for_matched_members() {
    let topics = vec![topic("t1", "news@example.com", false)];
    let members = vec![subscriber("ada", "news"), subscriber("beth", "promo")];
    let request =
        ConfirmEmailRequest { topic_id: "t1".to_string(), email_id: "e5".to_string() };
    let (response, jobs) = confirm_email(&topics, &members, &request);
    assert_eq!(response.topic.expect("the topic resolves").id.as_deref(), Some("t1"));
    assert_eq!(jobs.len(), 1);
    assert_eq!(jobs[0].member.name, "ada");
    assert_eq!(jobs[0].email_id, "e5");
    assert!(jobs[0].confirm_link, "the confirm operation queues confirmation links");
}

#[test]
fn confirm_email_with_unknown_topic_queues_nothing() {
    let topics = vec![topic("t1", "news@example.com", false)];
    let members = vec![subscriber("ada", "news")];
    let request =
        ConfirmEmailRequest { topic_id: "t9".to_string(), email_id: "e5".to_string() };
    let (response, jobs) = confirm_email(&topics, &members, &request);
    assert!(response.topic.is_none());
    assert!(jobs.is_empty());
}
