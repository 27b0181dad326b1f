//! The generic attribute-map representation of a stored record: a
//! string-keyed mapping to a small variant type (string, number, boolean,
//! string set), viewed as a `Map` from key characters to variant values.

use vstd::prelude::*;

use crate::text::str_eq;

verus! {

/// One stored field value.
#[derive(Debug)]
pub enum AttrValue {
    /// A string field.
    S(String),
    /// A numeric field, held in its decimal string form.
    N(String),
    /// A boolean field.
    Bool(bool),
    /// A string-set field.
    Ss(Vec<String>),
}

/// Specification-level shape of an `AttrValue`.
pub enum AttrV {
    S(Seq<char>),
    N(Seq<char>),
    Bool(bool),
    Ss(Seq<Seq<char>>),
}

impl View for AttrValue {
    type V = AttrV;

    open spec fn view(&self) -> AttrV {
        match self {
            AttrValue::S(s) => AttrV::S(s@),
            AttrValue::N(s) => AttrV::N(s@),
            AttrValue::Bool(b) => AttrV::Bool(*b),
            AttrValue::Ss(v) => AttrV::Ss(v@.map_values(|x: String| x@)),
        }
    }
}

/// What a whole row denotes.
pub type RowV = Map<Seq<char>, AttrV>;

/// A stored row: field name to field value, each name at most once.
#[derive(Debug)]
pub struct Row {
    entries: Vec<(String, AttrValue)>,
}

closed spec fn map_of(es: Seq<(String, AttrValue)>) -> RowV
    decreases es.len(),
{
    if es.len() == 0 {
        Map::empty()
    } else {
        map_of(es.drop_last()).insert(es.last().0@, es.last().1@)
    }
}

proof fn lemma_map_of_contains(es: Seq<(String, AttrValue)>, k: Seq<char>)
    ensures
        map_of(es).contains_key(k) <==> exists|i: int| 0 <= i < es.len() && es[i].0@ == k,
    decreases es.len(),
{
    if es.len() > 0 {
        lemma_map_of_contains(es.drop_last(), k);
        if es.last().0@ == k {
            assert(es[es.len() - 1].0@ == k);
        } else if map_of(es).contains_key(k) {
            let i = choose|i: int| 0 <= i < es.drop_last().len() && es.drop_last()[i].0@ == k;
            assert(es[i].0@ == k);
        } else if exists|i: int| 0 <= i < es.len() && es[i].0@ == k {
            let i = choose|i: int| 0 <= i < es.len() && es[i].0@ == k;
            assert(es.drop_last()[i].0@ == k);
        }
    }
}

proof fn lemma_map_of_at(es: Seq<(String, AttrValue)>, k: Seq<char>, i: int)
    requires
        0 <= i < es.len(),
        es[i].0@ == k,
        forall|j: int| i < j < es.len() ==> es[j].0@ != k,
    ensures
        map_of(es).contains_key(k),
        map_of(es)[k] == es[i].1@,
    decreases es.len(),
{
    if i == es.len() - 1 {
    } else {
        assert(es.drop_last()[i].0@ == k);
        lemma_map_of_at(es.drop_last(), k, i);
        assert(es.last().0@ != k);
    }
}

impl View for Row {
    type V = RowV;

    closed spec fn view(&self) -> RowV {
        map_of(self.entries@)
    }
}

impl Row {
    /// Field names occur at most once.
    pub closed spec fn wf(&self) -> bool {
        forall|i: int, j: int|
            0 <= i < j < self.entries@.len() ==> self.entries@[i].0@ != self.entries@[j].0@
    }

    /// An empty row.
    pub fn new() -> (r: Row)
        ensures
            r.wf(),
            r@ == Map::<Seq<char>, AttrV>::empty(),
    {
        Row { entries: Vec::new() }
    }

    /// Add a field the row does not hold yet.
    pub fn push_field(&mut self, key: &str, value: AttrValue)
        requires
            old(self).wf(),
            !old(self)@.contains_key(key@),
        ensures
            final(self).wf(),
            final(self)@ == old(self)@.insert(key@, value@),
    {
        proof {
            lemma_map_of_contains(self.entries@, key@);
        }
        self.entries.push((key.to_owned(), value));
        proof {
            assert(self.entries@.drop_last() =~= old(self).entries@);
        }
    }

    /// The stored fields: each name with the value the row maps it to.
    pub fn fields(&self) -> (r: &Vec<(String, AttrValue)>)
        requires
            self.wf(),
        ensures
            forall|i: int|
                0 <= i < r@.len() ==> self@.contains_key((#[trigger] r@[i]).0@) && self@[r@[i].0@]
                    == r@[i].1@,
    {
        proof {
            assert forall|i: int|
                0 <= i < self.entries@.len() implies self@.contains_key(
                (#[trigger] self.entries@[i]).0@,
            ) && self@[self.entries@[i].0@] == self.entries@[i].1@ by {
                lemma_map_of_at(self.entries@, self.entries@[i].0@, i);
            }
        }
        &self.entries
    }

    /// Look a field up by name.
    pub fn get(&self, key: &str) -> (r: Option<&AttrValue>)
        requires
            self.wf(),
        ensures
            match r {
                Some(v) => self@.contains_key(key@) && v@ == self@[key@],
                None => !self@.contains_key(key@),
            },
    {
        let n = self.entries.len();
        let mut i: usize = 0;
        while i < n
            invariant
                self.wf(),
                n == self.entries@.len(),
                0 <= i <= n,
                forall|k: int| 0 <= k < i ==> self.entries@[k].0@ != key@,
            decreases n - i,
        {
            let e = &self.entries[i];
            if str_eq(e.0.as_str(), key) {
                proof {
                    lemma_map_of_at(self.entries@, key@, i as int);
                }
                return Some(&self.entries[i].1);
            }
            i = i + 1;
        }
        proof {
            lemma_map_of_contains(self.entries@, key@);
        }
        None
    }
}

} // verus!
