//! The inbound mail router: resolve the topic an arriving destination
//! address belongs to, falling back to a designated default topic rather
//! than dropping the message, and dispatch to the matched members.

use vstd::prelude::*;

use crate::api::{ConfirmEmailRequest, ConfirmEmailResponse, EmailRequest};
use crate::dispatch::{matched_jobs, queue_emails};
use crate::text::str_eq;
use crate::types::{Member, Topic, TopicV};

verus! {

/// Some topic's endpoint equals the destination exactly.
pub open spec fn some_topic_matches(ts: Seq<TopicV>, dest: Seq<char>) -> bool {
    exists|i: int| 0 <= i < ts.len() && (#[trigger] ts[i]).endpoint == dest
}

/// What resolution yields: the first topic whose endpoint equals the
/// destination exactly, else the fallback topic.
pub open spec fn spec_resolve(ts: Seq<TopicV>, dest: Seq<char>, fb: TopicV) -> TopicV
    decreases ts.len(),
{
    if ts.len() == 0 {
        fb
    } else if ts[0].endpoint == dest {
        ts[0]
    } else {
        spec_resolve(ts.subrange(1, ts.len() as int), dest, fb)
    }
}

/// The first stored topic carrying an id, if any.
pub open spec fn spec_find_by_id(ts: Seq<TopicV>, tid: Seq<char>) -> Option<TopicV>
    decreases ts.len(),
{
    if ts.len() == 0 {
        None
    } else if ts[0].id == Some(tid) {
        Some(ts[0])
    } else {
        spec_find_by_id(ts.subrange(1, ts.len() as int), tid)
    }
}

/// A destination no topic matches resolves to the fallback topic: the
/// message is routed, never dropped.
pub proof fn lemma_inbound_fallback(ts: Seq<TopicV>, dest: Seq<char>, fb: TopicV)
    requires
        !some_topic_matches(ts, dest),
    ensures
        spec_resolve(ts, dest, fb) == fb,
    decreases ts.len(),
{
    if ts.len() > 0 {
        assert(ts[0].endpoint != dest);
        let rest = ts.subrange(1, ts.len() as int);
        assert forall|i: int| 0 <= i < rest.len() implies (#[trigger] rest[i]).endpoint
            != dest by {
            assert(rest[i] == ts[i + 1]);
        }
        lemma_inbound_fallback(rest, dest, fb);
    }
}

/// Find the topic for a destination address by exact endpoint equality,
/// failing open to the fallback topic.
pub fn resolve_topic<'a>(topics: &'a Vec<Topic>, destination: &str, fallback: &'a Topic) -> (r:
    &'a Topic)
    ensures
        r@ == spec_resolve(topics@.map_values(|t: Topic| t@), destination@, fallback@),
{
    let ghost ts = topics@.map_values(|t: Topic| t@);
    let ghost dest = destination@;
    let ghost fb = fallback@;
    let n = topics.len();
    proof {
        assert(ts.subrange(0, n as int) =~= ts);
    }
    let mut i: usize = 0;
    while i < n
        invariant
            n == topics@.len() == ts.len(),
            ts == topics@.map_values(|t2: Topic| t2@),
            dest == destination@,
            fb == fallback@,
            0 <= i <= n,
            forall|k: int| 0 <= k < n ==> ts[k] == (#[trigger] topics@[k])@,
            spec_resolve(ts, dest, fb) == spec_resolve(
                ts.subrange(i as int, n as int),
                dest,
                fb,
            ),
        decreases n - i,
    {
        proof {
            assert(ts.subrange(i as int, n as int)[0] == ts[i as int]);
            assert(ts[i as int] == topics@[i as int]@);
        }
        let t = &topics[i];
        if str_eq(t.endpoint.as_str(), destination) {
            proof {
                assert(t@ == topics@[i as int]@);
                assert(t.endpoint@ == dest);
                assert(ts[i as int].endpoint == dest);
                assert(spec_resolve(ts.subrange(i as int, n as int), dest, fb) == ts[i as int]);
            }
            return &topics[i];
        }
        proof {
            assert(t.endpoint@ != dest);
            assert(ts[i as int].endpoint != dest);
            assert(ts.subrange(i as int, n as int).subrange(
                1,
                ts.subrange(i as int, n as int).len() as int,
            ) =~= ts.subrange(i + 1, n as int));
            assert(spec_resolve(ts.subrange(i as int, n as int), dest, fb) == spec_resolve(
                ts.subrange(i + 1, n as int),
                dest,
                fb,
            ));
        }
        i = i + 1;
    }
    proof {
        assert(ts.subrange(n as int, n as int).len() == 0);
    }
    fallback
}

/// Find a stored topic by its id, first match wins.
pub fn find_topic_by_id<'a>(topics: &'a Vec<Topic>, topic_id: &str) -> (r: Option<&'a Topic>)
    ensures
        match r {
            Some(t) => spec_find_by_id(topics@.map_values(|t2: Topic| t2@), topic_id@) == Some(
                t@,
            ),
            None => spec_find_by_id(topics@.map_values(|t2: Topic| t2@), topic_id@) is None,
        },
{
    let ghost ts = topics@.map_values(|t: Topic| t@);
    let ghost tid = topic_id@;
    let n = topics.len();
    proof {
        assert(ts.subrange(0, n as int) =~= ts);
    }
    let mut i: usize = 0;
    while i < n
        invariant
            n == topics@.len() == ts.len(),
            ts == topics@.map_values(|t2: Topic| t2@),
            tid == topic_id@,
            0 <= i <= n,
            forall|k: int| 0 <= k < n ==> ts[k] == (#[trigger] topics@[k])@,
            spec_find_by_id(ts, tid) == spec_find_by_id(ts.subrange(i as int, n as int), tid),
        decreases n - i,
    {
        proof {
            assert(ts.subrange(i as int, n as int)[0] == ts[i as int]);
            assert(ts[i as int] == topics@[i as int]@);
        }
        let hit = match &topics[i].id {
            Some(id) => str_eq(id.as_str(), topic_id),
            None => false,
        };
        if hit {
            proof {
                assert(ts[i as int].id == Some(tid));
                assert(spec_find_by_id(ts.subrange(i as int, n as int), tid) == Some(
                    ts[i as int],
                ));
            }
            return Some(&topics[i]);
        }
        proof {
            assert(ts[i as int].id != Some(tid));
            assert(ts.subrange(i as int, n as int).subrange(
                1,
                ts.subrange(i as int, n as int).len() as int,
            ) =~= ts.subrange(i + 1, n as int));
            assert(spec_find_by_id(ts.subrange(i as int, n as int), tid) == spec_find_by_id(
                ts.subrange(i + 1, n as int),
                tid,
            ));
        }
        i = i + 1;
    }
    proof {
        assert(ts.subrange(n as int, n as int).len() == 0);
    }
    None
}

/// Confirm a stored email for a topic: resolve the topic by its id and
/// build the jobs that mail the stored content, with the confirmation
/// link, to every matched member. An unknown topic id yields no topic
/// and no jobs, not an error.
pub fn confirm_email(
    topics: &Vec<Topic>,
    members: &Vec<Member>,
    request: &ConfirmEmailRequest,
) -> (r: (ConfirmEmailResponse, Vec<EmailRequest>))
    ensures
        match spec_find_by_id(topics@.map_values(|t: Topic| t@), request.topic_id@) {
            Some(t) => {
                &&& r.0.topic is Some
                &&& r.0.topic->0@ == t
                &&& r.1@.map_values(|j: EmailRequest| j@) == matched_jobs(
                    t,
                    members@.map_values(|m: Member| m@),
                    request.email_id@,
                    true,
                )
            },
            None => r.0.topic is None && r.1@.len() == 0,
        },
{
    match find_topic_by_id(topics, request.topic_id.as_str()) {
        Some(topic) => {
            let jobs = queue_emails(topic, members, request.email_id.as_str(), true);
            (ConfirmEmailResponse { topic: Some(topic.duplicate()) }, jobs)
        },
        None => (ConfirmEmailResponse { topic: None }, Vec::new()),
    }
}

/// Route one inbound destination: resolve its topic (or the fallback)
/// and build the dispatch jobs for every matched member, with the
/// just-received message as content and no confirmation link.
pub fn route_inbound(
    topics: &Vec<Topic>,
    members: &Vec<Member>,
    destination: &str,
    message_id: &str,
    fallback: &Topic,
) -> (jobs: Vec<EmailRequest>)
    ensures
        jobs@.map_values(|j: EmailRequest| j@) == matched_jobs(
            spec_resolve(topics@.map_values(|t: Topic| t@), destination@, fallback@),
            members@.map_values(|m: Member| m@),
            message_id@,
            false,
        ),
{
    let topic = resolve_topic(topics, destination, fallback);
    queue_emails(topic, members, message_id, false)
}

} // verus!
