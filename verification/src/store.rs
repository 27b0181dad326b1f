//! An id-keyed table of rows with the store's operation semantics: full
//! scan, put with full overwrite returning the previous row, and delete
//! returning the previous row.

use vstd::prelude::*;

use crate::row::{AttrValue, Row, RowV};
use crate::serialize::row_id;
use crate::text::str_eq;

verus! {

/// The id a row of a well-formed table is keyed by.
pub open spec fn row_key(r: RowV) -> Seq<char> {
    row_id(r)->0
}

/// The mapping from id to row that a sequence of rows denotes; a later
/// row wins over an earlier one with the same id.
pub open spec fn table_map(rs: Seq<RowV>) -> Map<Seq<char>, RowV>
    decreases rs.len(),
{
    if rs.len() == 0 {
        Map::empty()
    } else {
        table_map(rs.drop_last()).insert(row_key(rs.last()), rs.last())
    }
}

proof fn lemma_table_map_contains(rs: Seq<RowV>, k: Seq<char>)
    ensures
        table_map(rs).contains_key(k) <==> exists|i: int| 0 <= i < rs.len() && row_key(rs[i]) == k,
    decreases rs.len(),
{
    if rs.len() > 0 {
        lemma_table_map_contains(rs.drop_last(), k);
        if row_key(rs.last()) == k {
            assert(row_key(rs[rs.len() - 1]) == k);
        } else if table_map(rs).contains_key(k) {
            let i = choose|i: int|
                0 <= i < rs.drop_last().len() && row_key(rs.drop_last()[i]) == k;
            assert(row_key(rs[i]) == k);
        } else if exists|i: int| 0 <= i < rs.len() && row_key(rs[i]) == k {
            let i = choose|i: int| 0 <= i < rs.len() && row_key(rs[i]) == k;
            assert(row_key(rs.drop_last()[i]) == k);
        }
    }
}

proof fn lemma_table_map_at(rs: Seq<RowV>, k: Seq<char>, i: int)
    requires
        0 <= i < rs.len(),
        row_key(rs[i]) == k,
        forall|j: int| i < j < rs.len() ==> row_key(rs[j]) != k,
    ensures
        table_map(rs).contains_key(k),
        table_map(rs)[k] == rs[i],
    decreases rs.len(),
{
    if i == rs.len() - 1 {
    } else {
        assert(row_key(rs.drop_last()[i]) == k);
        lemma_table_map_at(rs.drop_last(), k, i);
        assert(row_key(rs.last()) != k);
    }
}

proof fn lemma_table_map_remove(rs: Seq<RowV>, i: int)
    requires
        0 <= i < rs.len(),
        forall|p: int, q: int| 0 <= p < q < rs.len() ==> row_key(rs[p]) != row_key(rs[q]),
    ensures
        table_map(rs.remove(i)) == table_map(rs).remove(row_key(rs[i])),
    decreases rs.len(),
{
    let k = row_key(rs[i]);
    if i == rs.len() - 1 {
        assert(rs.remove(i) =~= rs.drop_last());
        lemma_table_map_contains(rs.drop_last(), k);
        assert(forall|j: int|
            0 <= j < rs.drop_last().len() ==> row_key(rs.drop_last()[j]) == row_key(rs[j]));
        assert(!table_map(rs.drop_last()).contains_key(k));
        assert(table_map(rs.drop_last()) =~= table_map(rs.drop_last()).insert(k, rs.last()).remove(
            k,
        ));
    } else {
        let dl = rs.drop_last();
        assert(rs.remove(i).drop_last() =~= dl.remove(i));
        assert(rs.remove(i).last() == rs.last());
        lemma_table_map_remove(dl, i);
        assert(row_key(rs.last()) != k);
        assert(table_map(rs.remove(i)) == table_map(dl.remove(i)).insert(
            row_key(rs.last()),
            rs.last(),
        ));
        assert(table_map(dl).remove(k).insert(row_key(rs.last()), rs.last()) =~= table_map(
            dl,
        ).insert(row_key(rs.last()), rs.last()).remove(k));
    }
}

/// The table: rows keyed by their id field, each id at most once.
#[derive(Debug)]
pub struct Table {
    rows: Vec<Row>,
}

impl View for Table {
    type V = Map<Seq<char>, RowV>;

    closed spec fn view(&self) -> Map<Seq<char>, RowV> {
        table_map(self.rows_view())
    }
}

impl Table {
    /// The stored rows, in scan order.
    pub closed spec fn rows_view(&self) -> Seq<RowV> {
        self.rows@.map_values(|r: Row| r@)
    }

    /// Every row is well-formed, carries a string id, and no id repeats.
    pub closed spec fn wf(&self) -> bool {
        &&& forall|i: int| 0 <= i < self.rows@.len() ==> (#[trigger] self.rows@[i]).wf()
        &&& forall|i: int|
            0 <= i < self.rows@.len() ==> row_id(#[trigger] self.rows@[i]@) is Some
        &&& forall|i: int, j: int|
            0 <= i < j < self.rows@.len() ==> row_key(self.rows@[i]@) != row_key(self.rows@[j]@)
    }

    /// An empty table.
    pub fn new() -> (r: Table)
        ensures
            r.wf(),
            r@ == Map::<Seq<char>, RowV>::empty(),
            r.rows_view() == Seq::<RowV>::empty(),
    {
        let t = Table { rows: Vec::new() };
        proof {
            assert(t.rows_view() =~= Seq::<RowV>::empty());
        }
        t
    }

    /// All rows, in scan order.
    pub fn scan(&self) -> (r: &Vec<Row>)
        requires
            self.wf(),
        ensures
            r@.len() == self.rows_view().len(),
            forall|i: int|
                0 <= i < r@.len() ==> (#[trigger] r@[i])@ == self.rows_view()[i] && r@[i].wf(),
    {
        &self.rows
    }

    fn find_index(&self, id: &str) -> (r: Option<usize>)
        requires
            self.wf(),
        ensures
            match r {
                Some(i) => i < self.rows_view().len() && row_key(self.rows_view()[i as int])
                    == id@,
                None => forall|j: int|
                    0 <= j < self.rows_view().len() ==> row_key(self.rows_view()[j]) != id@,
            },
    {
        let n = self.rows.len();
        let mut j: usize = 0;
        while j < n
            invariant
                self.wf(),
                n == self.rows@.len(),
                0 <= j <= n,
                forall|k: int| 0 <= k < j ==> row_key(self.rows_view()[k]) != id@,
            decreases n - j,
        {
            let row = &self.rows[j];
            match row.get("id") {
                Some(attribute) => match attribute {
                    AttrValue::S(s) => {
                        if str_eq(s.as_str(), id) {
                            return Some(j);
                        }
                    },
                    _ => {},
                },
                None => {},
            }
            j = j + 1;
        }
        None
    }

    /// Store a row under its id, replacing and returning whatever row
    /// held that id before; full overwrite, no partial update.
    pub fn put(&mut self, row: Row) -> (prev: Option<Row>)
        requires
            old(self).wf(),
            row.wf(),
            row_id(row@) is Some,
        ensures
            final(self).wf(),
            final(self)@ == old(self)@.insert(row_key(row@), row@),
            match prev {
                Some(p) => old(self)@.contains_key(row_key(row@)) && p.wf() && p@ == old(
                    self,
                )@[row_key(row@)],
                None => !old(self)@.contains_key(row_key(row@)),
            },
            prev is None ==> final(self).rows_view() == old(self).rows_view().push(row@),
    {
        let ghost k = row_key(row@);
        let id = match row.get("id") {
            Some(attribute) => match attribute {
                AttrValue::S(s) => s.clone(),
                _ => unreached(),
            },
            None => unreached(),
        };
        proof {
            lemma_table_map_contains(self.rows_view(), k);
        }
        match self.find_index(id.as_str()) {
            Some(i) => {
                let ghost old_rows = self.rows_view();
                proof {
                    lemma_table_map_at(old_rows, k, i as int);
                    lemma_table_map_remove(old_rows, i as int);
                }
                let prev = self.rows.remove(i);
                let ghost mid_rows = self.rows_view();
                proof {
                    assert(mid_rows =~= old_rows.remove(i as int));
                }
                self.rows.push(row);
                proof {
                    assert(self.rows_view() =~= mid_rows.push(row@));
                    assert(self.rows_view().drop_last() =~= mid_rows);
                    assert(self@ == table_map(mid_rows).insert(k, row@));
                    assert(old(self)@.remove(k).insert(k, row@) =~= old(self)@.insert(k, row@));
                    let n = self.rows@.len();
                    assert forall|p: int|
                        0 <= p < n implies (#[trigger] self.rows@[p]).wf() && row_id(
                        self.rows@[p]@,
                    ) is Some by {
                        if p < n - 1 {
                            let q = if p < i { p } else { p + 1 };
                            assert(self.rows@[p] == old(self).rows@[q]);
                        } else {
                            assert(self.rows@[p] == row);
                        }
                    }
                    assert forall|p: int, q: int|
                        0 <= p < q < n implies row_key(self.rows@[p]@) != row_key(
                        self.rows@[q]@,
                    ) by {
                        let p0 = if p < i { p } else { p + 1 };
                        if q == n - 1 {
                            assert(self.rows@[q] == row);
                            assert(row_key(self.rows@[p]@) == row_key(old(self).rows@[p0]@));
                            assert(row_key(old(self).rows@[i as int]@) == k);
                            if p0 != i {
                                assert(row_key(old(self).rows@[p0]@) != k);
                            }
                        } else {
                            let q0 = if q < i { q } else { q + 1 };
                            assert(self.rows@[p] == old(self).rows@[p0]);
                            assert(self.rows@[q] == old(self).rows@[q0]);
                        }
                    }
                }
                Some(prev)
            },
            None => {
                self.rows.push(row);
                proof {
                    assert(self.rows_view() =~= old(self).rows_view().push(row@));
                    assert(self.rows_view().drop_last() =~= old(self).rows_view());
                    let n = self.rows@.len();
                    assert forall|p: int|
                        0 <= p < n implies (#[trigger] self.rows@[p]).wf() && row_id(
                        self.rows@[p]@,
                    ) is Some by {
                        if p < n - 1 {
                            assert(self.rows@[p] == old(self).rows@[p]);
                        } else {
                            assert(self.rows@[p] == row);
                        }
                    }
                    assert forall|p: int, q: int|
                        0 <= p < q < n implies row_key(self.rows@[p]@) != row_key(
                        self.rows@[q]@,
                    ) by {
                        if q == n - 1 {
                            assert(self.rows@[p] == old(self).rows@[p]);
                            assert(self.rows@[q] == row);
                            assert(row_key(old(self).rows_view()[p]) != id@);
                        } else {
                            assert(self.rows@[p] == old(self).rows@[p]);
                            assert(self.rows@[q] == old(self).rows@[q]);
                        }
                    }
                }
                None
            },
        }
    }

    /// Remove the row stored under an id, returning it; removing an
    /// unknown id changes nothing and is not an error.
    pub fn delete(&mut self, id: &str) -> (prev: Option<Row>)
        requires
            old(self).wf(),
        ensures
            final(self).wf(),
            final(self)@ == old(self)@.remove(id@),
            match prev {
                Some(p) => old(self)@.contains_key(id@) && p.wf() && p@ == old(self)@[id@],
                None => !old(self)@.contains_key(id@),
            },
            !old(self)@.contains_key(id@) ==> final(self)@ == old(self)@ && final(self).rows_view()
                == old(self).rows_view(),
    {
        proof {
            lemma_table_map_contains(self.rows_view(), id@);
        }
        match self.find_index(id) {
            Some(i) => {
                let ghost old_rows = self.rows_view();
                proof {
                    lemma_table_map_at(old_rows, id@, i as int);
                    lemma_table_map_remove(old_rows, i as int);
                }
                let prev = self.rows.remove(i);
                proof {
                    assert(self.rows_view() =~= old_rows.remove(i as int));
                }
                Some(prev)
            },
            None => {
                proof {
                    assert(old(self)@.remove(id@) =~= old(self)@);
                }
                None
            },
        }
    }
}

} // verus!
