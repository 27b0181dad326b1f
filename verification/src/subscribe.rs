//! The subscription matcher: which members receive a topic's mail.

use vstd::prelude::*;

use crate::text::{spec_contains, str_contains};
use crate::types::{Member, MemberV, Topic, TopicV};

verus! {

/// A member matches a topic when any of its subscription tags occurs as
/// a substring of the topic's endpoint address.
pub open spec fn spec_matches(topic: TopicV, member: MemberV) -> bool {
    exists|i: int|
        0 <= i < member.subscriptions.len() && spec_contains(
            topic.endpoint,
            #[trigger] member.subscriptions[i],
        )
}

/// Decide whether a member receives mail for a topic.
pub fn member_matches(topic: &Topic, member: &Member) -> (r: bool)
    ensures
        r == spec_matches(topic@, member@),
{
    let n = member.subscriptions.len();
    let mut i: usize = 0;
    while i < n
        invariant
            n == member.subscriptions@.len(),
            0 <= i <= n,
            forall|k: int|
                0 <= k < i ==> !spec_contains(topic@.endpoint, #[trigger] member@.subscriptions[k]),
        decreases n - i,
    {
        if str_contains(topic.endpoint.as_str(), member.subscriptions[i].as_str()) {
            proof {
                assert(member@.subscriptions[i as int] == member.subscriptions@[i as int]@);
            }
            return true;
        }
        i = i + 1;
    }
    false
}

} // verus!
