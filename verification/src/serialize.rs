//! The record codec: how a typed record maps to and from its stored row.
//!
//! Required fields decode with an exact error when absent or of the wrong
//! variant; optional fields degrade to `None` instead of failing; and for
//! every record whose id is set, decoding the encoding gives the record
//! back.

use vstd::prelude::*;

use crate::digits::{lemma_decimal_round_trip, parse_u64_decimal, spec_decimal, spec_parse_decimal,
    u64_to_decimal};
use crate::error::{DecodeError, DecodeErrorV, FieldKind};
use crate::row::{AttrV, AttrValue, Row, RowV};
use crate::types::{copy_string_vec, Member, MemberV, Topic, TopicV};

verus! {

/// Reading a required string field.
pub open spec fn get_s(row: RowV, k: Seq<char>) -> Result<Seq<char>, DecodeErrorV> {
    if !row.contains_key(k) {
        Err(DecodeErrorV::MissingField(k))
    } else {
        match row[k] {
            AttrV::S(s) => Ok(s),
            _ => Err(DecodeErrorV::WrongType(k, FieldKind::Text)),
        }
    }
}

/// Reading an optional string field: absent or mistyped yields `None`.
pub open spec fn get_s_opt(row: RowV, k: Seq<char>) -> Option<Seq<char>> {
    if row.contains_key(k) {
        match row[k] {
            AttrV::S(s) => Some(s),
            _ => None,
        }
    } else {
        None
    }
}

/// Reading a required boolean field.
pub open spec fn get_bool(row: RowV, k: Seq<char>) -> Result<bool, DecodeErrorV> {
    if !row.contains_key(k) {
        Err(DecodeErrorV::MissingField(k))
    } else {
        match row[k] {
            AttrV::Bool(b) => Ok(b),
            _ => Err(DecodeErrorV::WrongType(k, FieldKind::Boolean)),
        }
    }
}

/// Reading an optional numeric field: absent, mistyped, or unparsable
/// yields `None`.
pub open spec fn get_n_opt(row: RowV, k: Seq<char>) -> Option<u64> {
    if row.contains_key(k) {
        match row[k] {
            AttrV::N(s) => spec_parse_decimal(s),
            _ => None,
        }
    } else {
        None
    }
}

/// Reading an optional string-set field.
pub open spec fn get_ss_opt(row: RowV, k: Seq<char>) -> Option<Seq<Seq<char>>> {
    if row.contains_key(k) {
        match row[k] {
            AttrV::Ss(s) => Some(s),
            _ => None,
        }
    } else {
        None
    }
}

/// The id under which a row is stored, when it carries one.
pub open spec fn row_id(row: RowV) -> Option<Seq<char>> {
    get_s_opt(row, "id"@)
}

/// A record type the store can persist: it encodes to a row, decodes from
/// one, and carries a store-assigned id.
pub trait ServerSerialize: View + Sized {
    /// What decoding a row yields.
    spec fn row_decode(row: RowV) -> Result<Self::V, DecodeErrorV>;

    /// The row a record is stored as.
    spec fn row_encode(v: Self::V) -> RowV;

    /// The record's id, if assigned.
    spec fn spec_id(v: Self::V) -> Option<Seq<char>>;

    /// The record with its id replaced.
    spec fn spec_with_id(v: Self::V, id: Seq<char>) -> Self::V;

    fn from_row(data: &Row) -> (r: Result<Self, DecodeError>)
        requires
            data.wf(),
        ensures
            match r {
                Ok(v) => Self::row_decode(data@) == Ok::<Self::V, DecodeErrorV>(v@),
                Err(e) => Self::row_decode(data@) == Err::<Self::V, DecodeErrorV>(e@),
            },
    ;

    fn into_row(&self) -> (r: Row)
        ensures
            r.wf(),
            r@ == Self::row_encode(self@),
    ;

    fn id(&self) -> (r: Option<&str>)
        ensures
            match r {
                Some(s) => Self::spec_id(self@) == Some(s@),
                None => Self::spec_id(self@) is None,
            },
    ;

    fn set_id(&mut self, id: String)
        ensures
            final(self)@ == Self::spec_with_id(old(self)@, id@),
    ;

    /// Decoding the encoding of a record with an assigned id gives the
    /// record back.
    proof fn lemma_round_trip(v: Self::V)
        requires
            Self::spec_id(v) is Some,
        ensures
            Self::row_decode(Self::row_encode(v)) == Ok::<Self::V, DecodeErrorV>(v),
    ;

    /// Setting an id assigns exactly that id.
    proof fn lemma_with_id(v: Self::V, id: Seq<char>)
        ensures
            Self::spec_id(Self::spec_with_id(v, id)) == Some(id),
    ;

    /// A record is stored under its own id.
    proof fn lemma_encode_id(v: Self::V)
        ensures
            row_id(Self::row_encode(v)) == Self::spec_id(v),
    ;
}

/// Read a required string field of a row.
pub fn read_string(data: &Row, key: &str) -> (r: Result<String, DecodeError>)
    requires
        data.wf(),
    ensures
        match r {
            Ok(s) => get_s(data@, key@) == Ok::<Seq<char>, DecodeErrorV>(s@),
            Err(e) => get_s(data@, key@) == Err::<Seq<char>, DecodeErrorV>(e@),
        },
{
    match data.get(key) {
        Some(attribute) => match attribute {
            AttrValue::S(s) => Ok(s.clone()),
            _ => Err(DecodeError::WrongType(key.to_owned(), FieldKind::Text)),
        },
        None => Err(DecodeError::MissingField(key.to_owned())),
    }
}

/// Read an optional string field of a row.
pub fn read_string_optional(data: &Row, key: &str) -> (r: Option<String>)
    requires
        data.wf(),
    ensures
        match r {
            Some(s) => get_s_opt(data@, key@) == Some(s@),
            None => get_s_opt(data@, key@) is None,
        },
{
    match data.get(key) {
        Some(attribute) => match attribute {
            AttrValue::S(s) => Some(s.clone()),
            _ => None,
        },
        None => None,
    }
}

/// Read a required boolean field of a row.
pub fn read_bool(data: &Row, key: &str) -> (r: Result<bool, DecodeError>)
    requires
        data.wf(),
    ensures
        match r {
            Ok(b) => get_bool(data@, key@) == Ok::<bool, DecodeErrorV>(b),
            Err(e) => get_bool(data@, key@) == Err::<bool, DecodeErrorV>(e@),
        },
{
    match data.get(key) {
        Some(attribute) => match attribute {
            AttrValue::Bool(b) => Ok(*b),
            _ => Err(DecodeError::WrongType(key.to_owned(), FieldKind::Boolean)),
        },
        None => Err(DecodeError::MissingField(key.to_owned())),
    }
}

/// Read an optional numeric field of a row.
pub fn read_integer_optional(data: &Row, key: &str) -> (r: Option<u64>)
    requires
        data.wf(),
    ensures
        r == get_n_opt(data@, key@),
{
    match data.get(key) {
        Some(attribute) => match attribute {
            AttrValue::N(s) => parse_u64_decimal(s.as_str()),
            _ => None,
        },
        None => None,
    }
}

/// Read an optional string-set field of a row.
pub fn read_string_list(data: &Row, key: &str) -> (r: Option<Vec<String>>)
    requires
        data.wf(),
    ensures
        match r {
            Some(v) => get_ss_opt(data@, key@) == Some(v@.map_values(|s: String| s@)),
            None => get_ss_opt(data@, key@) is None,
        },
{
    match data.get(key) {
        Some(attribute) => match attribute {
            AttrValue::Ss(v) => Some(copy_string_vec(v)),
            _ => None,
        },
        None => None,
    }
}

/// What decoding a member row yields.
pub open spec fn member_decode(row: RowV) -> Result<MemberV, DecodeErrorV> {
    match get_s(row, "id"@) {
        Err(e) => Err(e),
        Ok(id) => match get_s(row, "name"@) {
            Err(e) => Err(e),
            Ok(name) => match get_s(row, "email"@) {
                Err(e) => Err(e),
                Ok(email) => Ok(
                    MemberV {
                        id: Some(id),
                        name,
                        email,
                        address: get_s_opt(row, "address"@),
                        mobile: get_n_opt(row, "mobile"@),
                        subscriptions: match get_ss_opt(row, "subscriptions"@) {
                            Some(s) => s,
                            None => Seq::empty(),
                        },
                    },
                ),
            },
        },
    }
}

/// The row a member is stored as: optional fields are omitted when
/// absent, never written as null.
pub open spec fn member_encode(v: MemberV) -> RowV {
    let m = Map::<Seq<char>, AttrV>::empty();
    let m = match v.id {
        Some(id) => m.insert("id"@, AttrV::S(id)),
        None => m,
    };
    let m = m.insert("name"@, AttrV::S(v.name));
    let m = m.insert("email"@, AttrV::S(v.email));
    let m = match v.address {
        Some(a) => m.insert("address"@, AttrV::S(a)),
        None => m,
    };
    let m = match v.mobile {
        Some(n) => m.insert("mobile"@, AttrV::N(spec_decimal(n as nat))),
        None => m,
    };
    m.insert("subscriptions"@, AttrV::Ss(v.subscriptions))
}

/// What decoding a topic row yields.
pub open spec fn topic_decode(row: RowV) -> Result<TopicV, DecodeErrorV> {
    match get_s(row, "id"@) {
        Err(e) => Err(e),
        Ok(id) => match get_s(row, "name"@) {
            Err(e) => Err(e),
            Ok(name) => match get_s(row, "endpoint"@) {
                Err(e) => Err(e),
                Ok(endpoint) => match get_bool(row, "default"@) {
                    Err(e) => Err(e),
                    Ok(default) => Ok(TopicV { id: Some(id), name, endpoint, default }),
                },
            },
        },
    }
}

/// The row a topic is stored as.
pub open spec fn topic_encode(v: TopicV) -> RowV {
    let m = Map::<Seq<char>, AttrV>::empty();
    let m = match v.id {
        Some(id) => m.insert("id"@, AttrV::S(id)),
        None => m,
    };
    let m = m.insert("name"@, AttrV::S(v.name));
    let m = m.insert("endpoint"@, AttrV::S(v.endpoint));
    m.insert("default"@, AttrV::Bool(v.default))
}

/// The field names of the two record layouts are pairwise distinct.
proof fn lemma_keys_distinct()
    ensures
        "id"@ != "name"@,
        "id"@ != "email"@,
        "id"@ != "address"@,
        "id"@ != "mobile"@,
        "id"@ != "subscriptions"@,
        "id"@ != "endpoint"@,
        "id"@ != "default"@,
        "name"@ != "email"@,
        "name"@ != "address"@,
        "name"@ != "mobile"@,
        "name"@ != "subscriptions"@,
        "name"@ != "endpoint"@,
        "name"@ != "default"@,
        "email"@ != "address"@,
        "email"@ != "mobile"@,
        "email"@ != "subscriptions"@,
        "address"@ != "mobile"@,
        "address"@ != "subscriptions"@,
        "mobile"@ != "subscriptions"@,
        "endpoint"@ != "default"@,
{
    reveal_strlit("id");
    reveal_strlit("name");
    reveal_strlit("email");
    reveal_strlit("address");
    reveal_strlit("mobile");
    reveal_strlit("subscriptions");
    reveal_strlit("endpoint");
    reveal_strlit("default");
    assert("id"@.len() == 2);
    assert("name"@.len() == 4);
    assert("email"@.len() == 5);
    assert("address"@.len() == 7);
    assert("mobile"@.len() == 6);
    assert("subscriptions"@.len() == 13);
    assert("endpoint"@.len() == 8);
    assert("default"@.len() == 7);
    assert("address"@[0] == 'a');
    assert("default"@[0] == 'd');
}

impl ServerSerialize for Member {
    open spec fn row_decode(row: RowV) -> Result<MemberV, DecodeErrorV> {
        member_decode(row)
    }

    open spec fn row_encode(v: MemberV) -> RowV {
        member_encode(v)
    }

    open spec fn spec_id(v: MemberV) -> Option<Seq<char>> {
        v.id
    }

    open spec fn spec_with_id(v: MemberV, id: Seq<char>) -> MemberV {
        MemberV { id: Some(id), ..v }
    }

    fn from_row(data: &Row) -> (r: Result<Self, DecodeError>) {
        let id = match read_string(data, "id") {
            Ok(s) => s,
            Err(e) => return Err(e),
        };
        let name = match read_string(data, "name") {
            Ok(s) => s,
            Err(e) => return Err(e),
        };
        let email = match read_string(data, "email") {
            Ok(s) => s,
            Err(e) => return Err(e),
        };
        let address = read_string_optional(data, "address");
        let mobile = read_integer_optional(data, "mobile");
        let subscriptions = match read_string_list(data, "subscriptions") {
            Some(v) => v,
            None => Vec::new(),
        };
        let m = Member { id: Some(id), name, email, address, mobile, subscriptions };
        proof {
            assert(Seq::<String>::empty().map_values(|s: String| s@) =~= Seq::<Seq<char>>::empty());
            assert(member_decode(data@) == Ok::<MemberV, DecodeErrorV>(m@));
        }
        Ok(m)
    }

    fn into_row(&self) -> (r: Row) {
        proof {
            lemma_keys_distinct();
        }
        let mut row = Row::new();
        if let Some(id) = &self.id {
            row.push_field("id", AttrValue::S(id.clone()));
        }
        row.push_field("name", AttrValue::S(self.name.clone()));
        row.push_field("email", AttrValue::S(self.email.clone()));
        if let Some(address) = &self.address {
            row.push_field("address", AttrValue::S(address.clone()));
        }
        if let Some(mobile) = &self.mobile {
            row.push_field("mobile", AttrValue::N(u64_to_decimal(*mobile)));
        }
        row.push_field("subscriptions", AttrValue::Ss(copy_string_vec(&self.subscriptions)));
        proof {
            assert(row@ =~= member_encode(self@));
        }
        row
    }

    fn id(&self) -> (r: Option<&str>) {
        match &self.id {
            Some(s) => Some(s.as_str()),
            None => None,
        }
    }

    fn set_id(&mut self, id: String) {
        self.id = Some(id);
    }

    proof fn lemma_round_trip(v: MemberV) {
        lemma_keys_distinct();
        if let Some(n) = v.mobile {
            lemma_decimal_round_trip(n);
        }
        let row = member_encode(v);
        assert(member_decode(row) == Ok::<MemberV, DecodeErrorV>(v));
    }

    proof fn lemma_with_id(v: MemberV, id: Seq<char>) {
    }

    proof fn lemma_encode_id(v: MemberV) {
        lemma_keys_distinct();
    }
}

impl ServerSerialize for Topic {
    open spec fn row_decode(row: RowV) -> Result<TopicV, DecodeErrorV> {
        topic_decode(row)
    }

    open spec fn row_encode(v: TopicV) -> RowV {
        topic_encode(v)
    }

    open spec fn spec_id(v: TopicV) -> Option<Seq<char>> {
        v.id
    }

    open spec fn spec_with_id(v: TopicV, id: Seq<char>) -> TopicV {
        TopicV { id: Some(id), ..v }
    }

    fn from_row(data: &Row) -> (r: Result<Self, DecodeError>) {
        let id = match read_string(data, "id") {
            Ok(s) => s,
            Err(e) => return Err(e),
        };
        let name = match read_string(data, "name") {
            Ok(s) => s,
            Err(e) => return Err(e),
        };
        let endpoint = match read_string(data, "endpoint") {
            Ok(s) => s,
            Err(e) => return Err(e),
        };
        let default = match read_bool(data, "default") {
            Ok(b) => b,
            Err(e) => return Err(e),
        };
        let t = Topic { id: Some(id), name, endpoint, default };
        proof {
            assert(topic_decode(data@) == Ok::<TopicV, DecodeErrorV>(t@));
        }
        Ok(t)
    }

    fn into_row(&self) -> (r: Row) {
        proof {
            lemma_keys_distinct();
        }
        let mut row = Row::new();
        if let Some(id) = &self.id {
            row.push_field("id", AttrValue::S(id.clone()));
        }
        row.push_field("name", AttrValue::S(self.name.clone()));
        row.push_field("endpoint", AttrValue::S(self.endpoint.clone()));
        row.push_field("default", AttrValue::Bool(self.default));
        proof {
            assert(row@ =~= topic_encode(self@));
        }
        row
    }

    fn id(&self) -> (r: Option<&str>) {
        match &self.id {
            Some(s) => Some(s.as_str()),
            None => None,
        }
    }

    fn set_id(&mut self, id: String) {
        self.id = Some(id);
    }

    proof fn lemma_round_trip(v: TopicV) {
        lemma_keys_distinct();
        let row = topic_encode(v);
        assert(topic_decode(row) == Ok::<TopicV, DecodeErrorV>(v));
    }

    proof fn lemma_with_id(v: TopicV, id: Seq<char>) {
    }

    proof fn lemma_encode_id(v: TopicV) {
        lemma_keys_distinct();
    }
}

} // verus!
