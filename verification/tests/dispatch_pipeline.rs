//! The dispatch pipeline: subscription matching, job construction, and
//! action-link rendering through the real email crate.

use sinln::api::EmailRequest;
use sinln::dispatch::{append_action_line, build_email_job, queue_emails, render_email};
use sinln::subscribe::member_matches;
use sinln::types::{Member, Topic};

fn topic(endpoint: &str) -> Topic {
    Topic {
        id: Some("t1".to_string()),
        name: "News".to_string(),
        endpoint: endpoint.to_string(),
        default: false,
    }
}

fn member_with(name: &str, subscriptions: &[&str]) -> Member {
    Member {
        id: Some(format!("m-{}", name)),
        name: name.to_string(),
        email: format!("{}@example.com", name),
        address: None,
        mobile: None,
        subscriptions: subscriptions.iter().map(|s| s.to_string()).collect(),
    }
}

#[test]
fn matching_selects_exactly_the_subscribed_member() {
    let topic = topic("news@example.com");
    let members = vec![
        member_with("ada", &["news"]),
        member_with("beth", &["promo"]),
        member_with("cy", &[]),
    ];
    let jobs = queue_emails(&topic, &members, "e1", false);
    assert_eq!(jobs.len(), 1);
    assert_eq!(jobs[0].member.name, "ada");
    assert_eq!(jobs[0].topic.endpoint, "news@example.com");
    assert_eq!(jobs[0].email_id, "e1");
    assert!(!jobs[0].confirm_link);
}

#[test]
fn matching_is_substring_of_the_endpoint() {
    let t = topic("news@example.com");
    assert!(member_matches(&t, &member_with("a", &["news"])));
    assert!(member_matches(&t, &member_with("b", &["example.com"])));
    assert!(member_matches(&t, &member_with("c", &["news@example.com"])));
    assert!(!member_matches(&t, &member_with("d", &["news@example.com.au"])));
    assert!(!member_matches(&t, &member_with("e", &["weekly"])));
    assert!(!member_matches(&t, &member_with("f", &[])));
}

#[test]
fn zero_matching_members_is_not_an_error() {
    let topic = topic("news@example.com");
    let members = vec![member_with("beth", &["promo"])];
    let jobs = queue_emails(&topic, &members, "e1", true);
    assert!(jobs.is_empty());
}

#[test]
fn jobs_snapshot_topic_and_member() {
    let topic = topic("news@example.com");
    let member = member_with("ada", &["news"]);
    let job = build_email_job(&topic, &member, "e9", true);
    assert_eq!(job.topic.id.as_deref(), Some("t1"));
    assert_eq!(job.member.email, "ada@example.com");
    assert_eq!(job.email_id, "e9");
    assert!(job.confirm_link);
}

#[test]
fn confirm_link_names_topic_and_email() {
    let rendered = append_action_line("Hello", "t1", "m1", "e1", true);
    assert!(rendered.starts_with("Hello"));
    assert!(rendered.contains("topic=t1&email=e1"), "rendered: {:?}", rendered);
    assert!(rendered.contains("email-confirm"));
}

#[test]
fn unsubscribe_link_names_member_and_topic() {
    let rendered = append_action_line("Hello", "t1", "m1", "e1", false);
    assert!(rendered.starts_with("Hello"));
    assert!(rendered.contains("member=m1&topic=t1"), "rendered: {:?}", rendered);
    assert!(rendered.contains("unsubscribe"));
}

fn raw_email(body: &str) -> String {
    format!(
        "Date:Wed, 5 Jan 2022 15:13:05 +1300\r\nFrom:list@example.com\r\n\r\n{}",
        body
    )
}

#[test]
fn render_appends_the_confirm_link_to_the_body() {
    let request = EmailRequest {
        topic: topic("news@example.com"),
        member: member_with("ada", &["news"]),
        email_id: "e1".to_string(),
        confirm_link: true,
    };
    let out = render_email(&request, &raw_email("Greetings all")).expect("rendering succeeds");
    assert!(out.contains("Greetings all"));
    assert!(out.contains("topic=t1&email=e1"), "rendered: {:?}", out);
    assert!(out.contains("From:list@example.com"));
}

#[test]
fn render_appends_the_unsubscribe_link_to_the_body() {
    let request = EmailRequest {
        topic: topic("news@example.com"),
        member: member_with("ada", &["news"]),
        email_id: "e1".to_string(),
        confirm_link: false,
    };
    let out = render_email(&request, &raw_email("Greetings all")).expect("rendering succeeds");
    assert!(out.contains("member=m-ada&topic=t1"), "rendered: {:?}", out);
}

#[test]
fn render_reserializes_a_bodyless_message_unchanged() {
    let request = EmailRequest {
        topic: topic("news@example.com"),
        member: member_with("ada", &["news"]),
        email_id: "e1".to_string(),
        confirm_link: true,
    };
    // The unparsable line stops the header section before the blank
    // line, so the parsed message has no body to append to.
    let raw = "Date:Wed, 5 Jan 2022 15:13:05 +1300\r\nFrom:list@example.com\r\nnot a header\r\n\r\n";
    let out = render_email(&request, raw).expect("a bodyless message renders");
    assert!(!out.contains("topic="), "no link without a body: {:?}", out);
    assert!(out.contains("From:list@example.com"));
}

#[test]
fn render_requires_the_header_body_separator() {
    let request = EmailRequest {
        topic: topic("news@example.com"),
        member: member_with("ada", &["news"]),
        email_id: "e1".to_string(),
        confirm_link: true,
    };
    let raw = "Date:Wed, 5 Jan 2022 15:13:05 +1300\r\nFrom:list@example.com\r\n";
    let err = render_email(&request, raw).expect_err("content without a body separator fails");
    assert!(err.details().contains("separator"));
}
