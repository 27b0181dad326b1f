//! The CRUD engine over the table store: best-effort listing, id-assigning
//! full-overwrite updates that report the previous value, and deletes that
//! report the previous value.

use vstd::prelude::*;

use crate::api::{DeleteRequest, DeleteResponse, ListRequest, ListResponse, UpdateRequest,
    UpdateResponse, UpdateStatus};
use crate::digits::{all_digits, is_digit_char, lemma_decimal_len_u32, lemma_decimal_shape,
    u64_to_decimal};
use crate::error::RuntimeError;
use crate::row::{Row, RowV};
use crate::serialize::{row_id, ServerSerialize};
use crate::store::{row_key, Table};

verus! {

/// The year field of a timestamp: at least four digits, zero-padded, a
/// sign in front when the year falls outside four-digit range.
pub open spec fn year_shape(y: Seq<char>) -> bool {
    ||| (y.len() >= 4 && all_digits(y))
    ||| (y.len() >= 5 && (y[0] == '+' || y[0] == '-') && (forall|j: int|
        1 <= j < y.len() ==> is_digit_char(#[trigger] y[j])))
}

/// The fixed tail of a timestamp: month, day, hour, minute and second as
/// two digits each, with their separators and the closing dash.
pub open spec fn clock_tail_shape(t: Seq<char>) -> bool {
    &&& t.len() == 16
    &&& t[0] == '-' && t[3] == '-' && t[6] == '-' && t[15] == '-'
    &&& t[9] == ':' && t[12] == ':'
    &&& is_digit_char(t[1]) && is_digit_char(t[2]) && is_digit_char(t[4]) && is_digit_char(t[5])
    &&& is_digit_char(t[7]) && is_digit_char(t[8]) && is_digit_char(t[10]) && is_digit_char(
        t[11],
    )
    &&& is_digit_char(t[13]) && is_digit_char(t[14])
}

/// The shape of the timestamp prefix: a year, then date and clock fields
/// as two digits each, joined by the layout's separators and ending in
/// `'-'`.
pub open spec fn stamp_shape(s: Seq<char>) -> bool {
    &&& s.len() >= 20
    &&& year_shape(s.subrange(0, s.len() - 16))
    &&& clock_tail_shape(s.subrange(s.len() - 16, s.len() as int))
}

/// The shape of a store-assigned id: a timestamp prefix of the layout's
/// shape, then a decimal suffix of one to ten digits.
pub open spec fn valid_record_id(s: Seq<char>) -> bool {
    exists|p: int|
        {
            &&& 20 <= p < s.len()
            &&& s.len() - p <= 10
            &&& stamp_shape(#[trigger] s.subrange(0, p))
            &&& forall|j: int| p <= j < s.len() ==> is_digit_char(#[trigger] s[j])
        }
}

/// An id of the assigned shape is never empty.
pub proof fn lemma_assigned_id_nonempty(s: Seq<char>)
    requires
        valid_record_id(s),
    ensures
        s.len() >= 21,
{
}

/// Relies on chrono's `Utc::now` and `DateTime::format`: the layout
/// `"%Y-%m-%d-%H:%M:%S-"` prints the year zero-padded to at least four
/// digits (a sign in front only outside four-digit range), then month,
/// day, hour, minute and second as exactly two digits each, joined by
/// the literal separators and ending in `'-'`.
#[verifier::external_body]
fn now_stamp() -> (r: String)
    ensures
        stamp_shape(r@),
{
    chrono::Utc::now().format("%Y-%m-%d-%H:%M:%S-").to_string()
}

/// Relies on rand's `random` for the id suffix; nothing is assumed of the
/// drawn value.
#[verifier::external_body]
fn random_u32() -> u32 {
    rand::random()
}

/// Assign a fresh id: the current UTC second, then a random decimal
/// suffix. Collisions within one second are possible and not detected.
pub fn make_id() -> (r: String)
    ensures
        valid_record_id(r@),
        r@.len() >= 21,
{
    let mut id = now_stamp();
    let ghost stamp = id@;
    let n = random_u32();
    let digits = u64_to_decimal(n as u64);
    id.append(digits.as_str());
    proof {
        lemma_decimal_shape(n as nat);
        lemma_decimal_len_u32(n as u64);
        let p = stamp.len() as int;
        assert(id@.subrange(0, p) =~= stamp);
        assert forall|j: int| p <= j < id@.len() implies is_digit_char(#[trigger] id@[j]) by {
            assert(id@[j] == digits@[j - p]);
        }
        assert(valid_record_id(id@));
    }
    id
}

/// Make a record ready to store: assign a fresh id when none is set,
/// and encode it as its row.
pub fn prepare_item<T: ServerSerialize>(item: T) -> (r: (T, Row))
    ensures
        T::spec_id(r.0@) is Some,
        assigned_from::<T>(item@, r.0@),
        r.1.wf(),
        r.1@ == T::row_encode(r.0@),
        row_id(r.1@) == T::spec_id(r.0@),
{
    let mut item = item;
    let ghost v0 = item@;
    let assign = match item.id() {
        Some(_) => false,
        None => true,
    };
    if assign {
        let fresh = make_id();
        proof {
            T::lemma_with_id(item@, fresh@);
        }
        item.set_id(fresh);
        proof {
            assert(valid_record_id(fresh@) && item@ == T::spec_with_id(v0, fresh@));
            assert(assigned_from::<T>(v0, item@));
        }
    }
    let row = item.into_row();
    proof {
        T::lemma_encode_id(item@);
    }
    (item, row)
}

/// The records that survive decoding a row sequence, in scan order.
pub open spec fn decoded_items<T: ServerSerialize>(rows: Seq<RowV>) -> Seq<T::V>
    decreases rows.len(),
{
    if rows.len() == 0 {
        Seq::empty()
    } else {
        let rest = decoded_items::<T>(rows.drop_last());
        match T::row_decode(rows.last()) {
            Ok(v) => rest.push(v),
            Err(_) => rest,
        }
    }
}

/// Best-effort reading of a stored row: a decode failure degrades to
/// `None` rather than an error.
pub open spec fn best_effort_decode<T: ServerSerialize>(row: RowV) -> Option<T::V> {
    match T::row_decode(row) {
        Ok(v) => Some(v),
        Err(_) => None,
    }
}

/// The previous value an overwrite or delete reports: the stored row
/// under the key, decoded best-effort; an undecodable or absent row
/// degrades to `None`.
pub open spec fn decode_prev<T: ServerSerialize>(m: Map<Seq<char>, RowV>, k: Seq<char>) -> Option<
    T::V,
> {
    if m.contains_key(k) {
        best_effort_decode::<T>(m[k])
    } else {
        None
    }
}

/// Decode the row an overwrite or delete handed back, best-effort.
pub fn decode_previous<T: ServerSerialize>(previous: Option<Row>) -> (r: Option<T>)
    requires
        match previous {
            Some(p) => p.wf(),
            None => true,
        },
    ensures
        match previous {
            Some(p) => match r {
                Some(v) => best_effort_decode::<T>(p@) == Some(v@),
                None => best_effort_decode::<T>(p@) is None,
            },
            None => r is None,
        },
{
    match previous {
        Some(p) => match T::from_row(&p) {
            Ok(m) => Some(m),
            Err(_) => None,
        },
        None => None,
    }
}

/// A reported previous value agrees with what the table held.
pub open spec fn replaced_matches<T: ServerSerialize>(
    rep: Option<T>,
    m: Map<Seq<char>, RowV>,
    k: Seq<char>,
) -> bool {
    match rep {
        Some(p) => decode_prev::<T>(m, k) == Some(p@),
        None => decode_prev::<T>(m, k) is None,
    }
}

/// How an update turns the submitted record into the stored one: a
/// record with an id is stored as submitted; one without gets a fresh
/// id of the assigned shape.
pub open spec fn assigned_from<T: ServerSerialize>(v: T::V, w: T::V) -> bool {
    if T::spec_id(v) is Some {
        w == v
    } else {
        exists|idv: Seq<char>| valid_record_id(idv) && w == T::spec_with_id(v, idv)
    }
}

/// The table after storing each record of `ws` in order.
pub open spec fn tables_after<T: ServerSerialize>(
    m: Map<Seq<char>, RowV>,
    ws: Seq<T::V>,
) -> Map<Seq<char>, RowV>
    decreases ws.len(),
{
    if ws.len() == 0 {
        m
    } else {
        tables_after::<T>(m, ws.drop_last()).insert(
            T::spec_id(ws.last())->0,
            T::row_encode(ws.last()),
        )
    }
}

/// The table after removing each key of `ks` in order.
pub open spec fn maps_after_removes(
    m: Map<Seq<char>, RowV>,
    ks: Seq<Seq<char>>,
) -> Map<Seq<char>, RowV>
    decreases ks.len(),
{
    if ks.len() == 0 {
        m
    } else {
        maps_after_removes(m, ks.drop_last()).remove(ks.last())
    }
}

/// The stored records of the update statuses, in order.
pub open spec fn currents_of<T: ServerSerialize>(ups: Seq<UpdateStatus<T>>) -> Seq<T::V> {
    Seq::new(ups.len(), |i: int| ups[i].current@)
}

/// Decode a sequence of rows, dropping the undecodable ones, in order.
pub fn decode_rows<T: ServerSerialize>(rows: &Vec<Row>) -> (r: Vec<T>)
    requires
        forall|i: int| 0 <= i < rows@.len() ==> (#[trigger] rows@[i]).wf(),
    ensures
        r@.map_values(|t: T| t@) == decoded_items::<T>(rows@.map_values(|row: Row| row@)),
{
    let ghost rs = rows@.map_values(|row: Row| row@);
    let mut items: Vec<T> = Vec::new();
    let n = rows.len();
    let mut i: usize = 0;
    while i < n
        invariant
            n == rows@.len() == rs.len(),
            rs == rows@.map_values(|row: Row| row@),
            forall|j: int| 0 <= j < n ==> (#[trigger] rows@[j]).wf() && rows@[j]@ == rs[j],
            0 <= i <= n,
            items@.map_values(|t: T| t@) == decoded_items::<T>(rs.subrange(0, i as int)),
        decreases n - i,
    {
        let ghost pre = rs.subrange(0, i as int);
        let ghost cur = rs.subrange(0, i + 1);
        proof {
            assert(cur.drop_last() =~= pre);
            assert(cur.last() == rs[i as int]);
        }
        match T::from_row(&rows[i]) {
            Ok(m) => {
                items.push(m);
                proof {
                    assert(items@.map_values(|t: T| t@) =~= decoded_items::<T>(cur));
                }
            },
            Err(_err) => {},
        }
        i = i + 1;
    }
    proof {
        assert(rs.subrange(0, n as int) =~= rs);
    }
    items
}

/// List every record of a table: a full scan, each row decoded, rows
/// that fail decoding dropped without failing the operation.
pub fn list_items<T: ServerSerialize>(_event: ListRequest, table: &Table) -> (r: Result<
    ListResponse<T>,
    RuntimeError,
>)
    requires
        table.wf(),
    ensures
        r is Ok,
        r->Ok_0.items@.map_values(|t: T| t@) == decoded_items::<T>(table.rows_view()),
{
    let rows = table.scan();
    let items = decode_rows::<T>(rows);
    proof {
        assert(rows@.map_values(|row: Row| row@) =~= table.rows_view());
    }
    Ok(ListResponse { items })
}

/// Store one record: assign an id if none is set, overwrite fully, and
/// report the previous value best-effort.
pub fn update_item<T: ServerSerialize>(table: &mut Table, item: T) -> (st: UpdateStatus<T>)
    requires
        old(table).wf(),
    ensures
        final(table).wf(),
        T::spec_id(st.current@) is Some,
        assigned_from::<T>(item@, st.current@),
        final(table)@ == old(table)@.insert(
            T::spec_id(st.current@)->0,
            T::row_encode(st.current@),
        ),
        replaced_matches::<T>(st.replaced, old(table)@, T::spec_id(st.current@)->0),
{
    let (item, row) = prepare_item(item);
    proof {
        assert(row_key(row@) == T::spec_id(item@)->0);
    }
    let previous = table.put(row);
    let replaced = decode_previous::<T>(previous);
    UpdateStatus { replaced, current: item }
}

/// Store each submitted record in order.
pub fn update_items<T: ServerSerialize>(input: UpdateRequest<T>, table: &mut Table) -> (r: Result<
    UpdateResponse<T>,
    RuntimeError,
>)
    requires
        old(table).wf(),
    ensures
        final(table).wf(),
        r is Ok,
        ({
            let ups = r->Ok_0.updates@;
            &&& ups.len() == input.values@.len()
            &&& forall|i: int|
                0 <= i < ups.len() ==> assigned_from::<T>(
                    input.values@[i]@,
                    (#[trigger] ups[i]).current@,
                )
            &&& forall|i: int| 0 <= i < ups.len() ==> T::spec_id((#[trigger] ups[i]).current@) is Some
            &&& final(table)@ == tables_after::<T>(old(table)@, currents_of(ups))
            &&& forall|i: int|
                0 <= i < ups.len() ==> replaced_matches::<T>(
                    (#[trigger] ups[i]).replaced,
                    tables_after::<T>(old(table)@, currents_of(ups).take(i)),
                    T::spec_id(ups[i].current@)->0,
                )
        }),
{
    let ghost m0 = table@;
    let ghost all_vals = input.values@;
    let mut values = input.values;
    let mut updates: Vec<UpdateStatus<T>> = Vec::new();
    while values.len() > 0
        invariant
            table.wf(),
            m0 == old(table)@,
            updates@.len() + values@.len() == all_vals.len(),
            values@ == all_vals.subrange(updates@.len() as int, all_vals.len() as int),
            table@ == tables_after::<T>(m0, currents_of(updates@)),
            forall|i: int|
                0 <= i < updates@.len() ==> assigned_from::<T>(
                    all_vals[i]@,
                    (#[trigger] updates@[i]).current@,
                ),
            forall|i: int|
                0 <= i < updates@.len() ==> T::spec_id((#[trigger] updates@[i]).current@) is Some,
            forall|i: int|
                0 <= i < updates@.len() ==> replaced_matches::<T>(
                    (#[trigger] updates@[i]).replaced,
                    tables_after::<T>(m0, currents_of(updates@).take(i)),
                    T::spec_id(updates@[i].current@)->0,
                ),
        decreases values@.len(),
    {
        let ghost done = updates@.len() as int;
        let item = values.remove(0);
        proof {
            assert(item == all_vals[done]);
            assert(values@ =~= all_vals.subrange(done + 1, all_vals.len() as int));
        }
        let ghost pre_map = table@;
        let ghost prev_ups = updates@;
        let st = update_item(table, item);
        updates.push(st);
        proof {
            let ups = updates@;
            let curs = currents_of(ups);
            assert(curs.drop_last() =~= currents_of(ups.drop_last()));
            assert(ups.drop_last() =~= prev_ups);
            assert(curs.last() == st.current@);
            assert(table@ == tables_after::<T>(m0, curs));
            assert forall|i: int|
                0 <= i < ups.len() implies replaced_matches::<T>(
                (#[trigger] ups[i]).replaced,
                tables_after::<T>(m0, curs.take(i)),
                T::spec_id(ups[i].current@)->0,
            ) by {
                if i < done {
                    assert(ups[i] == prev_ups[i]);
                    assert(curs.take(i) =~= currents_of(prev_ups).take(i));
                } else {
                    assert(curs.take(i) =~= currents_of(prev_ups));
                    assert(tables_after::<T>(m0, curs.take(i)) == pre_map);
                }
            }
        }
    }
    proof {
        assert(values@.len() == 0);
        assert(updates@.len() == all_vals.len());
    }
    Ok(UpdateResponse { updates })
}

/// Delete each requested id in order, reporting for each the removed
/// record best-effort; an unknown id yields `None` and no failure.
pub fn delete_items<T: ServerSerialize>(input: DeleteRequest, table: &mut Table) -> (r: Result<
    DeleteResponse<T>,
    RuntimeError,
>)
    requires
        old(table).wf(),
    ensures
        final(table).wf(),
        r is Ok,
        ({
            let rem = r->Ok_0.removed@;
            let ks = input.ids@.map_values(|s: String| s@);
            &&& rem.len() == ks.len()
            &&& final(table)@ == maps_after_removes(old(table)@, ks)
            &&& forall|i: int|
                0 <= i < rem.len() ==> replaced_matches::<T>(
                    #[trigger] rem[i],
                    maps_after_removes(old(table)@, ks.take(i)),
                    ks[i],
                )
        }),
{
    let ghost m0 = table@;
    let ghost ks = input.ids@.map_values(|s: String| s@);
    let ids = input.ids;
    let n = ids.len();
    let mut removed: Vec<Option<T>> = Vec::new();
    let mut i: usize = 0;
    while i < n
        invariant
            table.wf(),
            m0 == old(table)@,
            n == ids@.len() == ks.len(),
            forall|j: int| 0 <= j < n ==> ks[j] == (#[trigger] ids@[j])@,
            0 <= i <= n,
            removed@.len() == i,
            table@ == maps_after_removes(m0, ks.take(i as int)),
            forall|j: int|
                0 <= j < i ==> replaced_matches::<T>(
                    #[trigger] removed@[j],
                    maps_after_removes(m0, ks.take(j)),
                    ks[j],
                ),
        decreases n - i,
    {
        let ghost pre_map = table@;
        let previous = table.delete(ids[i].as_str());
        let old_item = decode_previous::<T>(previous);
        removed.push(old_item);
        proof {
            assert(ks.take(i + 1).drop_last() =~= ks.take(i as int));
            assert(ks.take(i + 1).last() == ks[i as int]);
            assert(table@ == maps_after_removes(m0, ks.take(i + 1)));
        }
        i = i + 1;
    }
    proof {
        assert(ks.take(n as int) =~= ks);
    }
    Ok(DeleteResponse { removed })
}

/// Overwriting a stored record with itself reports that record as the
/// previous value: of two identical updates in a row, the second's
/// `replaced` equals the first's `current`.
pub proof fn lemma_update_replace_idempotent<T: ServerSerialize>(
    m: Map<Seq<char>, RowV>,
    v: T::V,
)
    requires
        T::spec_id(v) is Some,
    ensures
        decode_prev::<T>(
            m.insert(T::spec_id(v)->0, T::row_encode(v)),
            T::spec_id(v)->0,
        ) == Some(v),
{
    T::lemma_round_trip(v);
}

/// Listing drops exactly the undecodable rows: with one malformed row
/// among `rows`, the listing holds one record fewer than the table.
pub proof fn lemma_list_isolation<T: ServerSerialize>(rows: Seq<RowV>, bad: int)
    requires
        0 <= bad < rows.len(),
        T::row_decode(rows[bad]) is Err,
        forall|j: int| 0 <= j < rows.len() && j != bad ==> T::row_decode(#[trigger] rows[j]) is Ok,
    ensures
        decoded_items::<T>(rows).len() == rows.len() - 1,
{
    lemma_decoded_items_len::<T>(rows, bad);
}

proof fn lemma_decoded_items_len<T: ServerSerialize>(rows: Seq<RowV>, bad: int)
    requires
        0 <= bad < rows.len(),
        T::row_decode(rows[bad]) is Err,
        forall|j: int| 0 <= j < rows.len() && j != bad ==> T::row_decode(#[trigger] rows[j]) is Ok,
    ensures
        decoded_items::<T>(rows).len() == rows.len() - 1,
    decreases rows.len(),
{
    let dl = rows.drop_last();
    if bad == rows.len() - 1 {
        lemma_decoded_all_ok::<T>(dl);
    } else {
        assert(forall|j: int|
            0 <= j < dl.len() && j != bad ==> T::row_decode(#[trigger] dl[j]) is Ok);
        lemma_decoded_items_len::<T>(dl, bad);
    }
}

/// When every row decodes, listing returns one record per row.
pub proof fn lemma_decoded_all_ok<T: ServerSerialize>(rows: Seq<RowV>)
    requires
        forall|j: int| 0 <= j < rows.len() ==> T::row_decode(#[trigger] rows[j]) is Ok,
    ensures
        decoded_items::<T>(rows).len() == rows.len(),
    decreases rows.len(),
{
    if rows.len() > 0 {
        lemma_decoded_all_ok::<T>(rows.drop_last());
    }
}

} // verus!
