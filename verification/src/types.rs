//! The two record types the store manages: members (subscribers) and
//! topics (mailing lists with a receiving endpoint).

use vstd::prelude::*;

verus! {

/// A subscriber.
#[derive(Debug)]
pub struct Member {
    /// Store-assigned identifier; absent only before first persistence.
    pub id: Option<String>,
    pub name: String,
    pub email: String,
    pub address: Option<String>,
    pub mobile: Option<u64>,
    /// Subscription tags, matched against topic endpoints.
    pub subscriptions: Vec<String>,
}

/// Specification-level shape of a `Member`.
pub struct MemberV {
    pub id: Option<Seq<char>>,
    pub name: Seq<char>,
    pub email: Seq<char>,
    pub address: Option<Seq<char>>,
    pub mobile: Option<u64>,
    pub subscriptions: Seq<Seq<char>>,
}

impl View for Member {
    type V = MemberV;

    open spec fn view(&self) -> MemberV {
        MemberV {
            id: match self.id {
                Some(ref s) => Some(s@),
                None => None,
            },
            name: self.name@,
            email: self.email@,
            address: match self.address {
                Some(ref s) => Some(s@),
                None => None,
            },
            mobile: self.mobile,
            subscriptions: self.subscriptions@.map_values(|s: String| s@),
        }
    }
}

/// A mailing list.
#[derive(Debug)]
pub struct Topic {
    /// Store-assigned identifier; absent only before first persistence.
    pub id: Option<String>,
    pub name: String,
    /// The address this topic receives mail on; also what subscription
    /// tags are matched against.
    pub endpoint: String,
    /// Marks the fallback topic used when inbound mail matches no
    /// configured topic.
    pub default: bool,
}

/// Specification-level shape of a `Topic`.
pub struct TopicV {
    pub id: Option<Seq<char>>,
    pub name: Seq<char>,
    pub endpoint: Seq<char>,
    pub default: bool,
}

impl View for Topic {
    type V = TopicV;

    open spec fn view(&self) -> TopicV {
        TopicV {
            id: match self.id {
                Some(ref s) => Some(s@),
                None => None,
            },
            name: self.name@,
            endpoint: self.endpoint@,
            default: self.default,
        }
    }
}

/// Copy an optional string, preserving its characters.
pub fn copy_opt_string(x: &Option<String>) -> (r: Option<String>)
    ensures
        match x {
            Some(s) => r is Some && r->0@ == s@,
            None => r is None,
        },
{
    match x {
        Some(s) => Some(s.clone()),
        None => None,
    }
}

/// Copy a vector of strings, preserving every element.
pub fn copy_string_vec(v: &Vec<String>) -> (r: Vec<String>)
    ensures
        r@.map_values(|s: String| s@) == v@.map_values(|s: String| s@),
{
    let mut r: Vec<String> = Vec::new();
    let n = v.len();
    let mut i: usize = 0;
    while i < n
        invariant
            n == v@.len(),
            0 <= i <= n,
            r@.len() == i,
            forall|k: int| 0 <= k < i ==> r@[k]@ == v@[k]@,
        decreases n - i,
    {
        r.push(v[i].clone());
        i = i + 1;
    }
    proof {
        assert(r@.map_values(|s: String| s@) =~= v@.map_values(|s: String| s@));
    }
    r
}

impl Member {
    /// A field-for-field copy.
    pub fn duplicate(&self) -> (r: Member)
        ensures
            r@ == self@,
    {
        let r = Member {
            id: copy_opt_string(&self.id),
            name: self.name.clone(),
            email: self.email.clone(),
            address: copy_opt_string(&self.address),
            mobile: self.mobile,
            subscriptions: copy_string_vec(&self.subscriptions),
        };
        proof {
            assert(r@ == self@);
        }
        r
    }
}

impl Topic {
    /// A field-for-field copy.
    pub fn duplicate(&self) -> (r: Topic)
        ensures
            r@ == self@,
    {
        let r = Topic {
            id: copy_opt_string(&self.id),
            name: self.name.clone(),
            endpoint: self.endpoint.clone(),
            default: self.default,
        };
        proof {
            assert(r@ == self@);
        }
        r
    }
}

} // verus!
