//! Capacity that batches have reserved.

use vstd::prelude::*;
use crate::names::texts;
use crate::time::Timestamp;

verus! {

/// Reserved requests by model; a sum that is missing is none.
pub open spec fn reserved_of(row: (u128, Option<i64>)) -> (u128, i64) {
    (
        row.0,
        match row.1 {
            Some(n) => n,
            None => 0,
        },
    )
}

/// Reserved requests by model, in order.
pub fn reserved_by_model(rows: &Vec<(u128, Option<i64>)>) -> (r: Vec<(u128, i64)>)
    ensures
        r@ == rows@.map_values(|row: (u128, Option<i64>)| reserved_of(row)),
{
    let mut out: Vec<(u128, i64)> = Vec::new();
    let mut i: usize = 0;
    while i < rows.len()
        invariant
            i <= rows@.len(),
            out@.len() == i,
            forall|j: int| 0 <= j < i ==> #[trigger] out@[j] == reserved_of(rows@[j]),
        decreases rows@.len() - i,
    {
        let reserved: i64 = match rows[i].1 {
            Some(n) => n,
            None => 0,
        };
        out.push((rows[i].0, reserved));
        i = i + 1;
    }
    assert(out@ =~= rows@.map_values(|row: (u128, Option<i64>)| reserved_of(row)));
    out
}

/// A reservation: a model, a completion window, a number of requests, and when it
/// expires.
#[derive(Debug)]
pub struct Reservation {
    pub model_id: u128,
    pub completion_window: String,
    pub requests: i64,
    pub expires_at: Timestamp,
}

/// Reservations, column by column.
#[derive(Debug)]
pub struct ReservationColumns {
    pub model_ids: Vec<u128>,
    pub windows: Vec<String>,
    pub counts: Vec<i64>,
    pub expires_ats: Vec<Timestamp>,
}

/// Reservations, column by column.
pub fn reservation_columns(rows: &Vec<Reservation>) -> (r: ReservationColumns)
    ensures
        r.model_ids@ == rows@.map_values(|row: Reservation| row.model_id),
        texts(r.windows@) == rows@.map_values(|row: Reservation| row.completion_window@),
        r.counts@ == rows@.map_values(|row: Reservation| row.requests),
        r.expires_ats@ == rows@.map_values(|row: Reservation| row.expires_at),
{
    let mut model_ids: Vec<u128> = Vec::new();
    let mut windows: Vec<String> = Vec::new();
    let mut counts: Vec<i64> = Vec::new();
    let mut expires_ats: Vec<Timestamp> = Vec::new();
    let mut i: usize = 0;
    while i < rows.len()
        invariant
            i <= rows@.len(),
            model_ids@.len() == i,
            windows@.len() == i,
            counts@.len() == i,
            expires_ats@.len() == i,
            forall|j: int| 0 <= j < i ==> #[trigger] model_ids@[j] == rows@[j].model_id,
            forall|j: int|
                0 <= j < i ==> (#[trigger] windows@[j])@ == rows@[j].completion_window@,
            forall|j: int| 0 <= j < i ==> #[trigger] counts@[j] == rows@[j].requests,
            forall|j: int| 0 <= j < i ==> #[trigger] expires_ats@[j] == rows@[j].expires_at,
        decreases rows@.len() - i,
    {
        model_ids.push(rows[i].model_id);
        windows.push(rows[i].completion_window.clone());
        counts.push(rows[i].requests);
        expires_ats.push(rows[i].expires_at);
        i = i + 1;
    }
    assert(model_ids@ =~= rows@.map_values(|row: Reservation| row.model_id));
    assert(texts(windows@) =~= rows@.map_values(|row: Reservation| row.completion_window@));
    assert(counts@ =~= rows@.map_values(|row: Reservation| row.requests));
    assert(expires_ats@ =~= rows@.map_values(|row: Reservation| row.expires_at));
    ReservationColumns { model_ids, windows, counts, expires_ats }
}

/// What is reserved for a model is the sum of its row, and nothing where the row
/// has no sum.
pub proof fn law_sums_are_reserved(row: (u128, Option<i64>))
    ensures
        reserved_of(row).0 == row.0,
        row.1 == Some(reserved_of(row).1) || (row.1 is None && reserved_of(row).1 == 0),
{
}

/// Reservations keep their order, and each its model, window, number and time.
pub proof fn law_reservations_keep_their_columns(
    rows: Vec<Reservation>,
    r: ReservationColumns,
    i: int,
)
    requires
        call_ensures(reservation_columns, (&rows,), r),
        0 <= i < rows@.len(),
    ensures
        r.model_ids@.len() == rows@.len(),
        r.windows@.len() == rows@.len(),
        r.counts@.len() == rows@.len(),
        r.expires_ats@.len() == rows@.len(),
        r.model_ids@[i] == rows@[i].model_id,
        r.windows@[i]@ == rows@[i].completion_window@,
        r.counts@[i] == rows@[i].requests,
        r.expires_ats@[i] == rows@[i].expires_at,
{
    assert(texts(r.windows@).len() == r.windows@.len());
    assert(texts(r.windows@)[i] == r.windows@[i]@);
}

/// What is reserved is told of every row, in order.
pub proof fn law_reserved_sums_keep_their_rows(
    rows: Vec<(u128, Option<i64>)>,
    r: Vec<(u128, i64)>,
    i: int,
)
    requires
        call_ensures(reserved_by_model, (&rows,), r),
        0 <= i < rows@.len(),
    ensures
        r@.len() == rows@.len(),
        r@[i].0 == rows@[i].0,
        rows@[i].1 == Some(r@[i].1) || (rows@[i].1 is None && r@[i].1 == 0),
{
}

}
