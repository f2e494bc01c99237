//! What has to change in a model's tariffs for them to be the declared ones.
//!
//! Tariffs are historical: a changed tariff is closed and a successor is
//! inserted. A plan lists the rows to close and the tariffs to insert; rows that
//! already say what is declared are left alone.

use vstd::prelude::*;
use crate::amount::{ten_to, Amount};
use crate::names::{same_optional_text, text_or_none};
use crate::text::same_text;
use crate::time::Timestamp;

verus! {

/// A tariff row that is in force.
#[derive(Debug)]
pub struct TariffRow {
    pub id: u128,
    pub name: String,
    pub input_price_per_token: Amount,
    pub output_price_per_token: Amount,
    pub api_key_purpose: Option<String>,
    pub completion_window: Option<String>,
    pub valid_until: Option<Timestamp>,
}

/// A tariff as declared, its prices per token.
#[derive(Debug)]
pub struct DesiredTariff {
    pub name: String,
    pub purpose: String,
    pub completion_window: Option<String>,
    pub input_price_per_token: Amount,
    pub output_price_per_token: Amount,
}

/// What a tariff is for: a purpose and a completion window. At most one tariff
/// is in force for each.
pub struct TariffKey {
    pub purpose: Seq<char>,
    pub window: Option<Seq<char>>,
}

/// One declared tariff to insert, and the row that it takes the place of.
#[derive(Debug, Clone, Copy, PartialEq, Eq, Structural)]
pub struct TariffChange {
    /// The row to close first.
    pub replaces: Option<u128>,
    /// Which of the declared tariffs to insert.
    pub tariff: usize,
}

/// What to change, in this order.
#[derive(Debug)]
pub struct TariffPlan {
    /// Rows without a purpose, and rows behind a newer one of the same key.
    /// They are closed first, for at most one row of a key may be in force.
    pub close_first: Vec<u128>,
    pub changes: Vec<TariffChange>,
    /// Rows whose key is not declared any more.
    pub close_last: Vec<u128>,
}

/// The key of a row; a row without a purpose has none.
pub open spec fn row_key(row: TariffRow) -> Option<TariffKey> {
    match row.api_key_purpose {
        Some(purpose) => Some(
            TariffKey { purpose: purpose@, window: text_or_none(row.completion_window) },
        ),
        None => None,
    }
}

/// The key of a declared tariff.
pub open spec fn desired_key(tariff: DesiredTariff) -> TariffKey {
    TariffKey { purpose: tariff.purpose@, window: text_or_none(tariff.completion_window) }
}

/// The first row of a key at or after `from`. Rows come newest first, so it is
/// the row in force.
pub open spec fn first_row(rows: Seq<TariffRow>, key: TariffKey, from: int) -> Option<int>
    decreases rows.len() - from,
{
    if from >= rows.len() {
        None
    } else if row_key(rows[from]) == Some(key) {
        Some(from)
    } else {
        first_row(rows, key, from + 1)
    }
}

/// The first declared tariff of a key at or after `from`.
pub open spec fn first_desired(desired: Seq<DesiredTariff>, key: TariffKey, from: int) -> Option<
    int,
>
    decreases desired.len() - from,
{
    if from >= desired.len() {
        None
    } else if desired_key(desired[from]) == key {
        Some(from)
    } else {
        first_desired(desired, key, from + 1)
    }
}

/// Whether a row is the one in force for its key.
pub open spec fn is_active(rows: Seq<TariffRow>, i: int) -> bool {
    row_key(rows[i]) is Some && first_row(rows, row_key(rows[i])->0, 0) == Some(i)
}

/// Whether a row says what a declared tariff says, without an end.
pub open spec fn same_terms(row: TariffRow, tariff: DesiredTariff) -> bool {
    &&& row.name@ == tariff.name@
    &&& row.input_price_per_token@.equals(tariff.input_price_per_token@)
    &&& row.output_price_per_token@.equals(tariff.output_price_per_token@)
    &&& row.valid_until is None
}

/// The row that a declared tariff meets: the one in force for its key, unless an
/// earlier declared tariff of the key met it.
pub open spec fn met_row(rows: Seq<TariffRow>, desired: Seq<DesiredTariff>, k: int) -> Option<int> {
    if first_desired(desired, desired_key(desired[k]), 0) == Some(k) {
        first_row(rows, desired_key(desired[k]), 0)
    } else {
        None
    }
}

/// Whether a declared tariff is in force already.
pub open spec fn is_in_force(rows: Seq<TariffRow>, desired: Seq<DesiredTariff>, k: int) -> bool {
    met_row(rows, desired, k) is Some && same_terms(rows[met_row(rows, desired, k)->0], desired[k])
}

/// The rows to close first, among the first `n`.
pub open spec fn closed_first(rows: Seq<TariffRow>, n: int) -> Seq<u128>
    decreases n,
{
    if n <= 0 {
        Seq::empty()
    } else if is_active(rows, n - 1) {
        closed_first(rows, n - 1)
    } else {
        closed_first(rows, n - 1).push(rows[n - 1].id)
    }
}

/// The change that a declared tariff asks for.
pub open spec fn change_for(rows: Seq<TariffRow>, desired: Seq<DesiredTariff>, k: int) -> TariffChange {
    TariffChange {
        replaces: match met_row(rows, desired, k) {
            Some(i) => Some(rows[i].id),
            None => None,
        },
        tariff: k as usize,
    }
}

/// The changes that the first `n` declared tariffs ask for.
pub open spec fn changes_of(rows: Seq<TariffRow>, desired: Seq<DesiredTariff>, n: int) -> Seq<
    TariffChange,
>
    decreases n,
{
    if n <= 0 {
        Seq::empty()
    } else if is_in_force(rows, desired, n - 1) {
        changes_of(rows, desired, n - 1)
    } else {
        changes_of(rows, desired, n - 1).push(change_for(rows, desired, n - 1))
    }
}

/// Whether a row is in force for a key that is not declared.
pub open spec fn is_omitted(rows: Seq<TariffRow>, desired: Seq<DesiredTariff>, i: int) -> bool {
    is_active(rows, i) && first_desired(desired, row_key(rows[i])->0, 0) is None
}

/// The rows to close last, among the first `n`.
pub open spec fn closed_last(rows: Seq<TariffRow>, desired: Seq<DesiredTariff>, n: int) -> Seq<u128>
    decreases n,
{
    if n <= 0 {
        Seq::empty()
    } else if is_omitted(rows, desired, n - 1) {
        closed_last(rows, desired, n - 1).push(rows[n - 1].id)
    } else {
        closed_last(rows, desired, n - 1)
    }
}

fn row_has_key(row: &TariffRow, purpose: &String, window: &Option<String>) -> (r: bool)
    ensures
        r == (row_key(*row) == Some(
            TariffKey { purpose: purpose@, window: text_or_none(*window) },
        )),
{
    match &row.api_key_purpose {
        Some(p) => same_text(p.as_str(), purpose.as_str()) && same_optional_text(
            &row.completion_window,
            window,
        ),
        None => false,
    }
}

fn find_row(rows: &Vec<TariffRow>, purpose: &String, window: &Option<String>) -> (r: Option<usize>)
    ensures
        match r {
            Some(i) => i < rows@.len() && first_row(
                rows@,
                TariffKey { purpose: purpose@, window: text_or_none(*window) },
                0,
            ) == Some(i as int),
            None => first_row(
                rows@,
                TariffKey { purpose: purpose@, window: text_or_none(*window) },
                0,
            ) is None,
        },
{
    let ghost key = TariffKey { purpose: purpose@, window: text_or_none(*window) };
    let mut i: usize = 0;
    while i < rows.len()
        invariant
            i <= rows@.len(),
            key == (TariffKey { purpose: purpose@, window: text_or_none(*window) }),
            first_row(rows@, key, 0) == first_row(rows@, key, i as int),
        decreases rows@.len() - i,
    {
        if row_has_key(&rows[i], purpose, window) {
            return Some(i);
        }
        i = i + 1;
    }
    None
}

fn find_desired(desired: &Vec<DesiredTariff>, purpose: &String, window: &Option<String>) -> (r:
    Option<usize>)
    ensures
        match r {
            Some(i) => i < desired@.len() && first_desired(
                desired@,
                TariffKey { purpose: purpose@, window: text_or_none(*window) },
                0,
            ) == Some(i as int),
            None => first_desired(
                desired@,
                TariffKey { purpose: purpose@, window: text_or_none(*window) },
                0,
            ) is None,
        },
{
    let ghost key = TariffKey { purpose: purpose@, window: text_or_none(*window) };
    let mut i: usize = 0;
    while i < desired.len()
        invariant
            i <= desired@.len(),
            key == (TariffKey { purpose: purpose@, window: text_or_none(*window) }),
            first_desired(desired@, key, 0) == first_desired(desired@, key, i as int),
        decreases desired@.len() - i,
    {
        if same_text(desired[i].purpose.as_str(), purpose.as_str()) && same_optional_text(
            &desired[i].completion_window,
            window,
        ) {
            return Some(i);
        }
        i = i + 1;
    }
    None
}

fn has_terms(row: &TariffRow, tariff: &DesiredTariff) -> (r: bool)
    ensures
        r == same_terms(*row, *tariff),
{
    same_text(row.name.as_str(), tariff.name.as_str()) && row.input_price_per_token.equals(
        tariff.input_price_per_token,
    ) && row.output_price_per_token.equals(tariff.output_price_per_token)
        && row.valid_until.is_none()
}

/// Whether row `i` is the one in force for its key.
fn row_is_active(rows: &Vec<TariffRow>, i: usize) -> (r: bool)
    requires
        i < rows@.len(),
    ensures
        r == is_active(rows@, i as int),
{
    match &rows[i].api_key_purpose {
        Some(purpose) => match find_row(rows, purpose, &rows[i].completion_window) {
            Some(first) => first == i,
            None => false,
        },
        None => false,
    }
}

/// What has to change for the rows in force, newest first, to say what is
/// declared.
pub fn plan_tariffs(rows: &Vec<TariffRow>, desired: &Vec<DesiredTariff>) -> (r: TariffPlan)
    ensures
        r.close_first@ == closed_first(rows@, rows@.len() as int),
        r.changes@ == changes_of(rows@, desired@, desired@.len() as int),
        r.close_last@ == closed_last(rows@, desired@, rows@.len() as int),
{
    let mut close_first: Vec<u128> = Vec::new();
    let mut i: usize = 0;
    while i < rows.len()
        invariant
            i <= rows@.len(),
            close_first@ == closed_first(rows@, i as int),
        decreases rows@.len() - i,
    {
        if !row_is_active(rows, i) {
            close_first.push(rows[i].id);
        }
        i = i + 1;
    }
    let mut changes: Vec<TariffChange> = Vec::new();
    let mut k: usize = 0;
    while k < desired.len()
        invariant
            k <= desired@.len(),
            changes@ == changes_of(rows@, desired@, k as int),
        decreases desired@.len() - k,
    {
        let tariff = &desired[k];
        let is_first = match find_desired(desired, &tariff.purpose, &tariff.completion_window) {
            Some(first) => first == k,
            None => false,
        };
        let met = if is_first {
            find_row(rows, &tariff.purpose, &tariff.completion_window)
        } else {
            None
        };
        match met {
            Some(m) => {
                if !has_terms(&rows[m], tariff) {
                    changes.push(TariffChange { replaces: Some(rows[m].id), tariff: k });
                }
            },
            None => {
                changes.push(TariffChange { replaces: None, tariff: k });
            },
        }
        k = k + 1;
    }
    let mut close_last: Vec<u128> = Vec::new();
    let mut j: usize = 0;
    while j < rows.len()
        invariant
            j <= rows@.len(),
            close_last@ == closed_last(rows@, desired@, j as int),
        decreases rows@.len() - j,
    {
        if row_is_active(rows, j) {
            match &rows[j].api_key_purpose {
                Some(purpose) => {
                    if find_desired(desired, purpose, &rows[j].completion_window).is_none() {
                        close_last.push(rows[j].id);
                    }
                },
                None => {},
            }
        }
        j = j + 1;
    }
    TariffPlan { close_first, changes, close_last }
}

/// Whether no two declared tariffs have the same key.
pub open spec fn keys_differ(desired: Seq<DesiredTariff>) -> bool {
    forall|a: int, b: int|
        0 <= a < b < desired.len() ==> desired_key(#[trigger] desired[a]) != desired_key(
            #[trigger] desired[b],
        )
}

/// Whether a row is left alone: it is in force for a declared tariff and says
/// what that says.
pub open spec fn is_kept(rows: Seq<TariffRow>, desired: Seq<DesiredTariff>, i: int) -> bool {
    &&& is_active(rows, i)
    &&& first_desired(desired, row_key(rows[i])->0, 0) is Some
    &&& same_terms(rows[i], desired[first_desired(desired, row_key(rows[i])->0, 0)->0])
}

/// The rows left alone, among the first `n`.
pub open spec fn kept_rows(rows: Seq<TariffRow>, desired: Seq<DesiredTariff>, n: int) -> Seq<
    TariffRow,
>
    decreases n,
{
    if n <= 0 {
        Seq::empty()
    } else if is_kept(rows, desired, n - 1) {
        kept_rows(rows, desired, n - 1).push(rows[n - 1])
    } else {
        kept_rows(rows, desired, n - 1)
    }
}

/// Whether `after` are the rows in force once a plan for `rows` is carried out:
/// the inserted ones in front, then those left alone.
pub open spec fn is_outcome(
    rows: Seq<TariffRow>,
    desired: Seq<DesiredTariff>,
    inserted: Seq<TariffRow>,
    after: Seq<TariffRow>,
) -> bool {
    let changes = changes_of(rows, desired, desired.len() as int);
    &&& inserted.len() == changes.len()
    &&& forall|c: int|
        0 <= c < changes.len() ==> {
            let tariff = desired[(#[trigger] changes[c]).tariff as int];
            row_key(inserted[c]) == Some(desired_key(tariff)) && same_terms(inserted[c], tariff)
        }
    &&& after == inserted + kept_rows(rows, desired, rows.len() as int)
}

proof fn lemma_first_row(rows: Seq<TariffRow>, key: TariffKey, from: int)
    requires
        0 <= from,
    ensures
        match first_row(rows, key, from) {
            Some(i) => from <= i < rows.len() && row_key(rows[i]) == Some(key) && forall|j: int|
                from <= j < i ==> row_key(#[trigger] rows[j]) != Some(key),
            None => forall|j: int|
                from <= j < rows.len() ==> row_key(#[trigger] rows[j]) != Some(key),
        },
    decreases rows.len() - from,
{
    if from < rows.len() && row_key(rows[from]) != Some(key) {
        lemma_first_row(rows, key, from + 1);
    }
}

proof fn lemma_first_desired(desired: Seq<DesiredTariff>, key: TariffKey, from: int)
    requires
        0 <= from,
    ensures
        match first_desired(desired, key, from) {
            Some(i) => from <= i < desired.len() && desired_key(desired[i]) == key && forall|j: int|
                from <= j < i ==> desired_key(#[trigger] desired[j]) != key,
            None => forall|j: int|
                from <= j < desired.len() ==> desired_key(#[trigger] desired[j]) != key,
        },
    decreases desired.len() - from,
{
    if from < desired.len() && desired_key(desired[from]) != key {
        lemma_first_desired(desired, key, from + 1);
    }
}

/// The changes name declared tariffs that are not in force, each once, in order.
proof fn lemma_changes(rows: Seq<TariffRow>, desired: Seq<DesiredTariff>, n: int)
    requires
        0 <= n <= desired.len() <= usize::MAX,
    ensures
        forall|c: int|
            0 <= c < changes_of(rows, desired, n).len() ==> {
                let k = (#[trigger] changes_of(rows, desired, n)[c]).tariff as int;
                0 <= k < n && !is_in_force(rows, desired, k)
            },
        forall|c: int, d: int|
            0 <= c < d < changes_of(rows, desired, n).len() ==> (#[trigger] changes_of(
                rows,
                desired,
                n,
            )[c]).tariff < (#[trigger] changes_of(rows, desired, n)[d]).tariff,
        forall|k: int|
            0 <= k < n && !is_in_force(rows, desired, k) ==> exists|c: int|
                0 <= c < changes_of(rows, desired, n).len() && (#[trigger] changes_of(
                    rows,
                    desired,
                    n,
                )[c]).tariff == k,
    decreases n,
{
    if n > 0 {
        lemma_changes(rows, desired, n - 1);
        let before = changes_of(rows, desired, n - 1);
        let here = changes_of(rows, desired, n);
        assert forall|k: int| 0 <= k < n && !is_in_force(rows, desired, k) implies exists|c: int|
            0 <= c < here.len() && (#[trigger] here[c]).tariff == k by {
            if k < n - 1 {
                let c = choose|c: int| 0 <= c < before.len() && (#[trigger] before[c]).tariff == k;
                assert(here[c].tariff == k);
            } else {
                assert(here[before.len() as int].tariff == k);
            }
        }
    }
}

/// The kept rows are rows that are left alone, in order, and every such row is
/// among them.
proof fn lemma_kept(rows: Seq<TariffRow>, desired: Seq<DesiredTariff>, n: int) -> (places: Seq<int>)
    requires
        0 <= n <= rows.len(),
    ensures
        places.len() == kept_rows(rows, desired, n).len(),
        forall|p: int|
            0 <= p < places.len() ==> {
                &&& 0 <= #[trigger] places[p] < n
                &&& is_kept(rows, desired, places[p])
                &&& kept_rows(rows, desired, n)[p] == rows[places[p]]
            },
        forall|p: int, q: int|
            0 <= p < q < places.len() ==> #[trigger] places[p] < #[trigger] places[q],
        forall|i: int|
            0 <= i < n && is_kept(rows, desired, i) ==> exists|p: int|
                0 <= p < places.len() && #[trigger] places[p] == i,
    decreases n,
{
    if n <= 0 {
        Seq::empty()
    } else {
        let before = lemma_kept(rows, desired, n - 1);
        if is_kept(rows, desired, n - 1) {
            let places = before.push(n - 1);
            assert forall|i: int| 0 <= i < n && is_kept(rows, desired, i) implies exists|p: int|
                0 <= p < places.len() && #[trigger] places[p] == i by {
                if i < n - 1 {
                    let p = choose|p: int| 0 <= p < before.len() && #[trigger] before[p] == i;
                    assert(places[p] == i);
                } else {
                    assert(places[before.len() as int] == i);
                }
            }
            places
        } else {
            before
        }
    }
}

/// Whether a row says what some declared tariff of its key says.
pub open spec fn is_declared(rows: Seq<TariffRow>, desired: Seq<DesiredTariff>, i: int) -> bool {
    exists|k: int|
        0 <= k < desired.len() && row_key(rows[i]) == Some(desired_key(#[trigger] desired[k]))
            && same_terms(rows[i], desired[k])
}

/// Whether some row has the key of a declared tariff.
pub open spec fn has_row(rows: Seq<TariffRow>, desired: Seq<DesiredTariff>, k: int) -> bool {
    exists|i: int|
        0 <= i < rows.len() && row_key(#[trigger] rows[i]) == Some(desired_key(desired[k]))
}

/// Whether the rows in force are exactly the declared tariffs: each row has a
/// key of its own and says what the declared tariff of that key says, and every
/// declared tariff has a row.
pub open spec fn is_settled(rows: Seq<TariffRow>, desired: Seq<DesiredTariff>) -> bool {
    &&& forall|i: int| 0 <= i < rows.len() ==> row_key(#[trigger] rows[i]) is Some
    &&& forall|i: int, j: int|
        0 <= i < j < rows.len() ==> row_key(#[trigger] rows[i]) != row_key(#[trigger] rows[j])
    &&& forall|i: int| 0 <= i < rows.len() ==> #[trigger] is_declared(rows, desired, i)
    &&& forall|k: int| 0 <= k < desired.len() ==> #[trigger] has_row(rows, desired, k)
}

/// Carrying a plan out leaves exactly the declared tariffs in force, whatever
/// was in force before.
pub proof fn law_plan_settles(
    rows: Seq<TariffRow>,
    desired: Seq<DesiredTariff>,
    inserted: Seq<TariffRow>,
    after: Seq<TariffRow>,
)
    requires
        rows.len() <= usize::MAX,
        desired.len() <= usize::MAX,
        keys_differ(desired),
        is_outcome(rows, desired, inserted, after),
    ensures
        is_settled(after, desired),
{
    let n = rows.len() as int;
    let m = desired.len() as int;
    let changes = changes_of(rows, desired, m);
    let kept = kept_rows(rows, desired, n);
    lemma_changes(rows, desired, m);
    let places = lemma_kept(rows, desired, n);
    // What each row of the outcome stands for: a declared tariff.
    let tariff_of = Seq::new(
        after.len(),
        |a: int|
            if a < inserted.len() {
                changes[a].tariff as int
            } else {
                first_desired(desired, row_key(rows[places[a - inserted.len()]])->0, 0)->0
            },
    );
    assert forall|a: int| 0 <= a < after.len() implies 0 <= #[trigger] tariff_of[a] < m && row_key(
        after[a],
    ) == Some(desired_key(desired[tariff_of[a]])) && same_terms(after[a], desired[tariff_of[a]]) && (
    a < inserted.len() <==> !is_in_force(rows, desired, tariff_of[a])) by {
        if a < inserted.len() {
            assert(after[a] == inserted[a]);
            assert(changes[a].tariff as int == tariff_of[a]);
        } else {
            let p = a - inserted.len();
            let i = places[p];
            assert(after[a] == kept[p]);
            assert(kept[p] == rows[i]);
            lemma_first_desired(desired, row_key(rows[i])->0, 0);
            lemma_first_row(rows, row_key(rows[i])->0, 0);
            assert(met_row(rows, desired, tariff_of[a]) == Some(i));
        }
    }
    assert forall|a: int, b: int| 0 <= a < b < after.len() implies row_key(#[trigger] after[a])
        != row_key(#[trigger] after[b]) by {
        let ka = tariff_of[a];
        let kb = tariff_of[b];
        if b < inserted.len() {
            assert(changes[a].tariff < changes[b].tariff);
            assert(ka < kb);
        } else if a < inserted.len() {
            assert(ka != kb);
        } else {
            let i = places[a - inserted.len()];
            let j = places[b - inserted.len()];
            assert(i < j);
            assert(after[a] == rows[i]);
            assert(after[b] == rows[j]);
        }
        if ka != kb {
            if ka < kb {
                assert(desired_key(desired[ka]) != desired_key(desired[kb]));
            } else {
                assert(desired_key(desired[kb]) != desired_key(desired[ka]));
            }
        }
    }
    assert forall|a: int| 0 <= a < after.len() implies row_key(#[trigger] after[a]) is Some by {
        assert(0 <= tariff_of[a] < m);
    }
    assert forall|a: int| 0 <= a < after.len() implies #[trigger] is_declared(after, desired, a) by {
        let k = tariff_of[a];
        assert(desired_key(desired[k]) == desired_key(desired[k]));
    }
    assert forall|k: int| 0 <= k < m implies #[trigger] has_row(after, desired, k) by {
        let key = desired_key(desired[k]);
        if is_in_force(rows, desired, k) {
            let i = met_row(rows, desired, k)->0;
            lemma_first_row(rows, key, 0);
            assert(is_kept(rows, desired, i));
            let p = choose|p: int| 0 <= p < places.len() && #[trigger] places[p] == i;
            assert(after[inserted.len() + p] == kept[p]);
        } else {
            let c = choose|c: int| 0 <= c < changes.len() && (#[trigger] changes[c]).tariff == k;
            assert(after[c] == inserted[c]);
        }
    }
}

/// Where exactly the declared tariffs are in force, a row is in force for a
/// declared tariff.
proof fn lemma_settled_row_stays(rows: Seq<TariffRow>, desired: Seq<DesiredTariff>, i: int)
    requires
        is_settled(rows, desired),
        0 <= i < rows.len(),
    ensures
        is_active(rows, i),
        !is_omitted(rows, desired, i),
{
    let key = row_key(rows[i])->0;
    lemma_first_row(rows, key, 0);
    let f = first_row(rows, key, 0)->0;
    if f < i {
        assert(row_key(rows[f]) != row_key(rows[i]));
    }
    lemma_first_desired(desired, key, 0);
    assert(is_declared(rows, desired, i));
}

/// A declared tariff whose key no other has meets the row in force for its key.
proof fn lemma_meets_first_row(
    rows: Seq<TariffRow>,
    desired: Seq<DesiredTariff>,
    k: int,
    i: int,
) -> (met: int)
    requires
        keys_differ(desired),
        0 <= k < desired.len(),
        0 <= i < rows.len(),
        row_key(rows[i]) == Some(desired_key(desired[k])),
    ensures
        0 <= met < rows.len(),
        met_row(rows, desired, k) == Some(met),
        row_key(rows[met]) == Some(desired_key(desired[k])),
{
    let key = desired_key(desired[k]);
    lemma_first_desired(desired, key, 0);
    lemma_same_key(desired, k, first_desired(desired, key, 0)->0);
    lemma_first_row(rows, key, 0);
    first_row(rows, key, 0)->0
}

/// Where exactly the declared tariffs are in force, the row that a declared
/// tariff meets says what it says.
proof fn lemma_settled_tariff_stays(rows: Seq<TariffRow>, desired: Seq<DesiredTariff>, k: int)
    requires
        keys_differ(desired),
        is_settled(rows, desired),
        0 <= k < desired.len(),
    ensures
        is_in_force(rows, desired, k),
{
    assert(has_row(rows, desired, k));
    let i = choose|i: int|
        0 <= i < rows.len() && row_key(#[trigger] rows[i]) == Some(desired_key(desired[k]));
    let met = lemma_meets_first_row(rows, desired, k, i);
    assert(is_declared(rows, desired, met));
    let l = choose|l: int|
        0 <= l < desired.len() && row_key(rows[met]) == Some(desired_key(#[trigger] desired[l]))
            && same_terms(rows[met], desired[l]);
    lemma_same_key(desired, k, l);
}

/// Declared tariffs with the same key are the same one.
proof fn lemma_same_key(desired: Seq<DesiredTariff>, a: int, b: int)
    requires
        keys_differ(desired),
        0 <= a < desired.len(),
        0 <= b < desired.len(),
        desired_key(desired[a]) == desired_key(desired[b]),
    ensures
        a == b,
{
    if a < b {
        assert(desired_key(desired[a]) != desired_key(desired[b]));
    } else if b < a {
        assert(desired_key(desired[b]) != desired_key(desired[a]));
    }
}

/// Where exactly the declared tariffs are in force, there is nothing to do: no
/// row is closed and none is inserted.
pub proof fn law_settled_rows_stay(rows: Seq<TariffRow>, desired: Seq<DesiredTariff>)
    requires
        keys_differ(desired),
        is_settled(rows, desired),
    ensures
        closed_first(rows, rows.len() as int) == Seq::<u128>::empty(),
        changes_of(rows, desired, desired.len() as int) == Seq::<TariffChange>::empty(),
        closed_last(rows, desired, rows.len() as int) == Seq::<u128>::empty(),
{
    lemma_no_row_closed(rows, desired);
    lemma_no_tariff_inserted(rows, desired);
}

proof fn lemma_no_row_closed(rows: Seq<TariffRow>, desired: Seq<DesiredTariff>)
    requires
        is_settled(rows, desired),
    ensures
        closed_first(rows, rows.len() as int) == Seq::<u128>::empty(),
        closed_last(rows, desired, rows.len() as int) == Seq::<u128>::empty(),
{
    assert forall|i: int| 0 <= i < rows.len() implies #[trigger] is_active(rows, i) && !is_omitted(
        rows,
        desired,
        i,
    ) by {
        lemma_settled_row_stays(rows, desired, i);
    }
    lemma_nothing_closed(rows, desired, rows.len() as int);
}

proof fn lemma_no_tariff_inserted(rows: Seq<TariffRow>, desired: Seq<DesiredTariff>)
    requires
        keys_differ(desired),
        is_settled(rows, desired),
    ensures
        changes_of(rows, desired, desired.len() as int) == Seq::<TariffChange>::empty(),
{
    assert forall|k: int| 0 <= k < desired.len() implies #[trigger] is_in_force(
        rows,
        desired,
        k,
    ) by {
        lemma_settled_tariff_stays(rows, desired, k);
    }
    lemma_nothing_changed(rows, desired, desired.len() as int);
}

proof fn lemma_nothing_closed(rows: Seq<TariffRow>, desired: Seq<DesiredTariff>, n: int)
    requires
        0 <= n <= rows.len(),
        forall|i: int|
            0 <= i < rows.len() ==> #[trigger] is_active(rows, i) && !is_omitted(rows, desired, i),
    ensures
        closed_first(rows, n) == Seq::<u128>::empty(),
        closed_last(rows, desired, n) == Seq::<u128>::empty(),
    decreases n,
{
    if n > 0 {
        assert(is_active(rows, n - 1));
        lemma_nothing_closed(rows, desired, n - 1);
    }
}

proof fn lemma_nothing_changed(rows: Seq<TariffRow>, desired: Seq<DesiredTariff>, n: int)
    requires
        0 <= n <= desired.len(),
        forall|k: int| 0 <= k < desired.len() ==> #[trigger] is_in_force(rows, desired, k),
    ensures
        changes_of(rows, desired, n) == Seq::<TariffChange>::empty(),
    decreases n,
{
    if n > 0 {
        assert(is_in_force(rows, desired, n - 1));
        lemma_nothing_changed(rows, desired, n - 1);
    }
}

/// Carrying a plan out twice does nothing the second time.
pub proof fn law_plan_is_idempotent(
    rows: Seq<TariffRow>,
    desired: Seq<DesiredTariff>,
    inserted: Seq<TariffRow>,
    after: Seq<TariffRow>,
)
    requires
        rows.len() <= usize::MAX,
        desired.len() <= usize::MAX,
        keys_differ(desired),
        is_outcome(rows, desired, inserted, after),
    ensures
        closed_first(after, after.len() as int) == Seq::<u128>::empty(),
        changes_of(after, desired, desired.len() as int) == Seq::<TariffChange>::empty(),
        closed_last(after, desired, after.len() as int) == Seq::<u128>::empty(),
{
    law_plan_settles(rows, desired, inserted, after);
    law_settled_rows_stay(after, desired);
}

/// A row is closed first, replaced, closed last, or left alone, and only one of
/// these: a row that says what is declared is never touched.
pub proof fn law_every_row_has_one_fate(rows: Seq<TariffRow>, desired: Seq<DesiredTariff>, i: int)
    requires
        0 <= i < rows.len(),
        desired.len() <= usize::MAX,
    ensures
        ({
            let k = first_desired(desired, row_key(rows[i])->0, 0);
            let first = !is_active(rows, i);
            let replaced = is_active(rows, i) && k is Some && !is_in_force(rows, desired, k->0)
                && met_row(rows, desired, k->0) == Some(i);
            let last = is_omitted(rows, desired, i);
            let kept = is_kept(rows, desired, i);
            &&& first || replaced || last || kept
            &&& !(first && replaced) && !(first && last) && !(first && kept)
            &&& !(replaced && last) && !(replaced && kept) && !(last && kept)
        }),
{
    if row_key(rows[i]) is Some {
        let key = row_key(rows[i])->0;
        lemma_first_desired(desired, key, 0);
        lemma_first_row(rows, key, 0);
    }
}

/// A declared tariff is inserted unless the newest row of its purpose and window
/// has the declared name, input price and output price, and no end. What is
/// inserted takes the place of that row, or of none where there is no such row.
pub proof fn law_only_equal_rows_are_left_in_force(
    rows: Seq<TariffRow>,
    desired: Seq<DesiredTariff>,
    k: int,
    i: int,
)
    requires
        0 <= k < desired.len() <= usize::MAX,
        // No other declared tariff is for the same purpose and window.
        forall|l: int|
            0 <= l < desired.len() && l != k ==> !((#[trigger] desired[l]).purpose@
                == desired[k].purpose@ && text_or_none(desired[l].completion_window)
                == text_or_none(desired[k].completion_window)),
        // Row `i` is the newest of that purpose and window; at the end there is none.
        0 <= i <= rows.len(),
        forall|j: int|
            0 <= j < i ==> !(text_or_none((#[trigger] rows[j]).api_key_purpose) == Some(
                desired[k].purpose@,
            ) && text_or_none(rows[j].completion_window) == text_or_none(
                desired[k].completion_window,
            )),
        i < rows.len() ==> text_or_none(rows[i].api_key_purpose) == Some(desired[k].purpose@)
            && text_or_none(rows[i].completion_window) == text_or_none(
            desired[k].completion_window,
        ),
    ensures
        ({
            let changes = changes_of(rows, desired, desired.len() as int);
            let stays = i < rows.len() && rows[i].name@ == desired[k].name@
                && rows[i].input_price_per_token@.mantissa * ten_to(
                desired[k].input_price_per_token@.scale,
            ) == desired[k].input_price_per_token@.mantissa * ten_to(
                rows[i].input_price_per_token@.scale,
            ) && rows[i].output_price_per_token@.mantissa * ten_to(
                desired[k].output_price_per_token@.scale,
            ) == desired[k].output_price_per_token@.mantissa * ten_to(
                rows[i].output_price_per_token@.scale,
            ) && rows[i].valid_until is None;
            &&& stays <==> forall|c: int|
                0 <= c < changes.len() ==> (#[trigger] changes[c]).tariff != k
            &&& forall|c: int|
                0 <= c < changes.len() && (#[trigger] changes[c]).tariff == k
                    ==> changes[c].replaces == (if i < rows.len() {
                    Some(rows[i].id)
                } else {
                    None
                })
        }),
{
    let key = desired_key(desired[k]);
    let m = desired.len() as int;
    let changes = changes_of(rows, desired, m);
    lemma_first_desired(desired, key, 0);
    assert(desired_key(desired[k]) == key);
    assert(first_desired(desired, key, 0) == Some(k)) by {
        let f = first_desired(desired, key, 0);
        if f is Some && f->0 != k {
            assert(desired_key(desired[f->0]) == key);
        }
    }
    lemma_first_row(rows, key, 0);
    assert(first_row(rows, key, 0) == (if i < rows.len() {
        Some(i)
    } else {
        None
    })) by {
        let f = first_row(rows, key, 0);
        if i < rows.len() {
            assert(row_key(rows[i]) == Some(key));
        }
        if f is Some && f->0 < i {
            assert(row_key(rows[f->0]) == Some(key));
        }
    }
    lemma_changes(rows, desired, m);
    lemma_change_at(rows, desired, m);
    if !is_in_force(rows, desired, k) {
        let c = choose|c: int| 0 <= c < changes.len() && (#[trigger] changes[c]).tariff == k;
        assert(changes[c].tariff == k);
    }
}

/// Each change is the one that its tariff asks for.
proof fn lemma_change_at(rows: Seq<TariffRow>, desired: Seq<DesiredTariff>, n: int)
    requires
        0 <= n <= desired.len() <= usize::MAX,
    ensures
        forall|c: int|
            0 <= c < changes_of(rows, desired, n).len() ==> (#[trigger] changes_of(
                rows,
                desired,
                n,
            )[c]) == change_for(rows, desired, changes_of(rows, desired, n)[c].tariff as int),
    decreases n,
{
    if n > 0 {
        lemma_change_at(rows, desired, n - 1);
    }
}

/// Closed first are exactly the rows without a purpose and those behind a newer
/// row of the same purpose and window.
pub proof fn law_older_rows_are_closed_first(rows: Seq<TariffRow>, i: int)
    requires
        0 <= i < rows.len(),
    ensures
        ({
            let closed = closed_first(rows, rows.len() as int);
            let goes = rows[i].api_key_purpose is None || exists|j: int|
                0 <= j < i && text_or_none((#[trigger] rows[j]).api_key_purpose) == text_or_none(
                    rows[i].api_key_purpose,
                ) && text_or_none(rows[j].completion_window) == text_or_none(
                    rows[i].completion_window,
                );
            &&& goes ==> closed.contains(rows[i].id)
            &&& !goes && (forall|j: int|
                0 <= j < rows.len() && j != i ==> (#[trigger] rows[j]).id != rows[i].id)
                ==> !closed.contains(rows[i].id)
        }),
{
    let goes = rows[i].api_key_purpose is None || exists|j: int|
        0 <= j < i && text_or_none((#[trigger] rows[j]).api_key_purpose) == text_or_none(
            rows[i].api_key_purpose,
        ) && text_or_none(rows[j].completion_window) == text_or_none(rows[i].completion_window);
    assert(is_active(rows, i) == !goes) by {
        if rows[i].api_key_purpose is Some {
            let key = row_key(rows[i])->0;
            lemma_first_row(rows, key, 0);
            let f = first_row(rows, key, 0)->0;
            if f < i {
                assert(text_or_none(rows[f].api_key_purpose) == text_or_none(
                    rows[i].api_key_purpose,
                ));
            }
            if goes {
                let j = choose|j: int|
                    0 <= j < i && text_or_none((#[trigger] rows[j]).api_key_purpose)
                        == text_or_none(rows[i].api_key_purpose) && text_or_none(
                        rows[j].completion_window,
                    ) == text_or_none(rows[i].completion_window);
                assert(row_key(rows[j]) == Some(key));
            }
        }
    }
    lemma_closed_first(rows, rows.len() as int, i);
}

proof fn lemma_closed_first(rows: Seq<TariffRow>, n: int, i: int)
    requires
        0 <= i < rows.len(),
        0 <= n <= rows.len(),
    ensures
        i < n && !is_active(rows, i) ==> closed_first(rows, n).contains(rows[i].id),
        is_active(rows, i) && (forall|j: int|
            0 <= j < rows.len() && j != i ==> (#[trigger] rows[j]).id != rows[i].id)
            ==> !closed_first(rows, n).contains(rows[i].id),
    decreases n,
{
    if n > 0 {
        lemma_closed_first(rows, n - 1, i);
        lemma_push_contains(closed_first(rows, n - 1), rows[n - 1].id, rows[i].id);
    }
}

proof fn lemma_push_contains(s: Seq<u128>, x: u128, y: u128)
    ensures
        s.push(x).contains(y) <==> s.contains(y) || x == y,
{
    let longer = s.push(x);
    if s.contains(y) {
        let i = choose|i: int| 0 <= i < s.len() && s[i] == y;
        assert(longer[i] == y);
    }
    assert(longer[s.len() as int] == x);
}

/// Closed last are exactly the newest rows of a purpose and window that no
/// declared tariff is for.
pub proof fn law_undeclared_rows_are_closed_last(
    rows: Seq<TariffRow>,
    desired: Seq<DesiredTariff>,
    i: int,
)
    requires
        0 <= i < rows.len(),
        rows[i].api_key_purpose is Some,
        forall|j: int|
            0 <= j < i ==> !(text_or_none((#[trigger] rows[j]).api_key_purpose) == text_or_none(
                rows[i].api_key_purpose,
            ) && text_or_none(rows[j].completion_window) == text_or_none(
                rows[i].completion_window,
            )),
    ensures
        ({
            let closed = closed_last(rows, desired, rows.len() as int);
            let is_wanted = exists|k: int|
                0 <= k < desired.len() && text_or_none(rows[i].api_key_purpose) == Some(
                    (#[trigger] desired[k]).purpose@,
                ) && text_or_none(rows[i].completion_window) == text_or_none(
                    desired[k].completion_window,
                );
            &&& !is_wanted ==> closed.contains(rows[i].id)
            &&& is_wanted && (forall|j: int|
                0 <= j < rows.len() && j != i ==> (#[trigger] rows[j]).id != rows[i].id)
                ==> !closed.contains(rows[i].id)
        }),
{
    let key = row_key(rows[i])->0;
    lemma_first_row(rows, key, 0);
    let f = first_row(rows, key, 0)->0;
    if f < i {
        assert(row_key(rows[f]) == Some(key));
    }
    lemma_first_desired(desired, key, 0);
    let is_wanted = exists|k: int|
        0 <= k < desired.len() && text_or_none(rows[i].api_key_purpose) == Some(
            (#[trigger] desired[k]).purpose@,
        ) && text_or_none(rows[i].completion_window) == text_or_none(desired[k].completion_window);
    assert(is_omitted(rows, desired, i) == !is_wanted) by {
        if is_wanted {
            let k = choose|k: int|
                0 <= k < desired.len() && text_or_none(rows[i].api_key_purpose) == Some(
                    (#[trigger] desired[k]).purpose@,
                ) && text_or_none(rows[i].completion_window) == text_or_none(
                    desired[k].completion_window,
                );
            assert(desired_key(desired[k]) == key);
        } else if first_desired(desired, key, 0) is Some {
            let d = first_desired(desired, key, 0)->0;
            assert(text_or_none(rows[i].api_key_purpose) == Some(desired[d].purpose@));
        }
    }
    lemma_closed_last(rows, desired, rows.len() as int, i);
}

proof fn lemma_closed_last(rows: Seq<TariffRow>, desired: Seq<DesiredTariff>, n: int, i: int)
    requires
        0 <= i < rows.len(),
        0 <= n <= rows.len(),
    ensures
        i < n && is_omitted(rows, desired, i) ==> closed_last(rows, desired, n).contains(rows[i].id),
        !is_omitted(rows, desired, i) && (forall|j: int|
            0 <= j < rows.len() && j != i ==> (#[trigger] rows[j]).id != rows[i].id)
            ==> !closed_last(rows, desired, n).contains(rows[i].id),
    decreases n,
{
    if n > 0 {
        lemma_closed_last(rows, desired, n - 1, i);
        lemma_push_contains(closed_last(rows, desired, n - 1), rows[n - 1].id, rows[i].id);
    }
}

/// Once a plan is carried out, every declared tariff has a row in force for its
/// purpose and window, with its name, its input price and its output price and
/// without an end; and it is the only such row.
pub proof fn law_declared_prices_are_charged(
    rows: Seq<TariffRow>,
    desired: Seq<DesiredTariff>,
    inserted: Seq<TariffRow>,
    after: Seq<TariffRow>,
    k: int,
)
    requires
        rows.len() <= usize::MAX,
        desired.len() <= usize::MAX,
        keys_differ(desired),
        is_outcome(rows, desired, inserted, after),
        0 <= k < desired.len(),
    ensures
        exists|a: int|
            0 <= a < after.len() && text_or_none((#[trigger] after[a]).api_key_purpose) == Some(
                desired[k].purpose@,
            ) && text_or_none(after[a].completion_window) == text_or_none(
                desired[k].completion_window,
            ) && after[a].name@ == desired[k].name@ && after[a].input_price_per_token@.mantissa
                * ten_to(desired[k].input_price_per_token@.scale)
                == desired[k].input_price_per_token@.mantissa * ten_to(
                after[a].input_price_per_token@.scale,
            ) && after[a].output_price_per_token@.mantissa * ten_to(
                desired[k].output_price_per_token@.scale,
            ) == desired[k].output_price_per_token@.mantissa * ten_to(
                after[a].output_price_per_token@.scale,
            ) && after[a].valid_until is None,
        forall|a: int, b: int|
            0 <= a < b < after.len() && text_or_none((#[trigger] after[a]).api_key_purpose)
                == text_or_none((#[trigger] after[b]).api_key_purpose) ==> text_or_none(
                after[a].completion_window,
            ) != text_or_none(after[b].completion_window),
{
    law_plan_settles(rows, desired, inserted, after);
    assert(has_row(after, desired, k));
    let a = choose|a: int|
        0 <= a < after.len() && row_key(#[trigger] after[a]) == Some(desired_key(desired[k]));
    assert(is_declared(after, desired, a));
    let l = choose|l: int|
        0 <= l < desired.len() && row_key(after[a]) == Some(desired_key(#[trigger] desired[l]))
            && same_terms(after[a], desired[l]);
    lemma_same_key(desired, k, l);
    assert(text_or_none(after[a].api_key_purpose) == Some(desired[k].purpose@));
    assert forall|x: int, y: int|
        0 <= x < y < after.len() && text_or_none((#[trigger] after[x]).api_key_purpose)
            == text_or_none((#[trigger] after[y]).api_key_purpose) implies text_or_none(
        after[x].completion_window,
    ) != text_or_none(after[y].completion_window) by {
        assert(row_key(after[x]) is Some && row_key(after[y]) is Some);
        assert(row_key(after[x]) != row_key(after[y]));
    }
}

/// A cache tariff row that is in force.
#[derive(Debug)]
pub struct CacheTariffRow {
    pub id: u128,
    pub write_multiplier_5m: Amount,
    pub write_multiplier_1h: Amount,
    pub write_multiplier_24h: Amount,
    pub read_multiplier: Amount,
    pub min_prefix_tokens: i32,
    pub valid_until: Option<Timestamp>,
}

/// A cache tariff as declared.
#[derive(Debug)]
pub struct DesiredCacheTariff {
    pub write_multiplier_5m: Amount,
    pub write_multiplier_1h: Amount,
    pub write_multiplier_24h: Amount,
    pub read_multiplier: Amount,
    pub min_prefix_tokens: i32,
}

/// What to change in a model's cache tariff, in this order.
#[derive(Debug)]
pub struct CacheTariffPlan {
    /// Rows behind a newer one.
    pub close_overlapping: Vec<u128>,
    /// The row in force, where it has to go.
    pub close_active: Option<u128>,
    /// Whether the declared tariff is to be inserted.
    pub insert: bool,
}

/// Whether a cache tariff row says what is declared, without an end.
pub open spec fn same_cache_terms(row: CacheTariffRow, tariff: DesiredCacheTariff) -> bool {
    &&& row.write_multiplier_5m@.equals(tariff.write_multiplier_5m@)
    &&& row.write_multiplier_1h@.equals(tariff.write_multiplier_1h@)
    &&& row.write_multiplier_24h@.equals(tariff.write_multiplier_24h@)
    &&& row.read_multiplier@.equals(tariff.read_multiplier@)
    &&& row.min_prefix_tokens == tariff.min_prefix_tokens
    &&& row.valid_until is None
}

/// The identifiers of cache tariff rows.
pub open spec fn cache_row_ids(rows: Seq<CacheTariffRow>) -> Seq<u128> {
    rows.map_values(|row: CacheTariffRow| row.id)
}

/// Whether the newest cache tariff row says what is declared.
pub open spec fn cache_tariff_in_force(
    rows: Seq<CacheTariffRow>,
    desired: Option<DesiredCacheTariff>,
) -> bool {
    rows.len() > 0 && desired is Some && same_cache_terms(rows[0], desired->0)
}

/// The rows behind the newest one.
pub open spec fn overlapping_rows(rows: Seq<CacheTariffRow>) -> Seq<u128> {
    if rows.len() == 0 {
        Seq::empty()
    } else {
        cache_row_ids(rows).skip(1)
    }
}

/// The newest row, where it does not say what is declared.
pub open spec fn outdated_row(
    rows: Seq<CacheTariffRow>,
    desired: Option<DesiredCacheTariff>,
) -> Option<u128> {
    if rows.len() > 0 && !cache_tariff_in_force(rows, desired) {
        Some(rows[0].id)
    } else {
        None
    }
}

/// Whether the declared tariff has to be inserted.
pub open spec fn needs_cache_tariff(
    rows: Seq<CacheTariffRow>,
    desired: Option<DesiredCacheTariff>,
) -> bool {
    desired is Some && !cache_tariff_in_force(rows, desired)
}

/// A declared cache tariff behind its reference.
pub open spec fn declared(desired: Option<&DesiredCacheTariff>) -> Option<DesiredCacheTariff> {
    match desired {
        Some(tariff) => Some(*tariff),
        None => None,
    }
}

/// What has to change for the cache tariff rows in force, newest first, to say
/// what is declared. Only the newest row counts; the others are closed.
pub fn plan_cache_tariff(
    rows: &Vec<CacheTariffRow>,
    desired: Option<&DesiredCacheTariff>,
) -> (r: CacheTariffPlan)
    ensures
        r.close_overlapping@ == overlapping_rows(rows@),
        r.close_active == outdated_row(rows@, declared(desired)),
        r.insert == needs_cache_tariff(rows@, declared(desired)),
{
    let mut close_overlapping: Vec<u128> = Vec::new();
    if rows.len() == 0 {
        return CacheTariffPlan { close_overlapping, close_active: None, insert: desired.is_some() };
    }
    let mut i: usize = 1;
    while i < rows.len()
        invariant
            1 <= i <= rows@.len(),
            close_overlapping@ == cache_row_ids(rows@).subrange(1, i as int),
        decreases rows@.len() - i,
    {
        close_overlapping.push(rows[i].id);
        assert(cache_row_ids(rows@).subrange(1, i + 1) =~= cache_row_ids(rows@).subrange(
            1,
            i as int,
        ).push(rows@[i as int].id));
        i = i + 1;
    }
    assert(cache_row_ids(rows@).subrange(1, rows@.len() as int) =~= cache_row_ids(rows@).skip(1));
    let active = &rows[0];
    match desired {
        None => CacheTariffPlan {
            close_overlapping,
            close_active: Some(active.id),
            insert: false,
        },
        Some(tariff) => {
            let unchanged = active.write_multiplier_5m.equals(tariff.write_multiplier_5m)
                && active.write_multiplier_1h.equals(tariff.write_multiplier_1h)
                && active.write_multiplier_24h.equals(tariff.write_multiplier_24h)
                && active.read_multiplier.equals(tariff.read_multiplier)
                && active.min_prefix_tokens == tariff.min_prefix_tokens
                && active.valid_until.is_none();
            if unchanged {
                CacheTariffPlan { close_overlapping, close_active: None, insert: false }
            } else {
                CacheTariffPlan { close_overlapping, close_active: Some(active.id), insert: true }
            }
        },
    }
}

/// Whether `after` are the rows in force once a plan for `rows` is carried out:
/// what was inserted, and the newest row if it was left alone.
pub open spec fn is_cache_outcome(
    rows: Seq<CacheTariffRow>,
    desired: Option<DesiredCacheTariff>,
    inserted: Seq<CacheTariffRow>,
    after: Seq<CacheTariffRow>,
) -> bool {
    &&& if needs_cache_tariff(rows, desired) {
        inserted.len() == 1 && same_cache_terms(inserted[0], desired->0)
    } else {
        inserted.len() == 0
    }
    &&& after == inserted + (if rows.len() > 0 && outdated_row(rows, desired) is None {
        seq![rows[0]]
    } else {
        Seq::empty()
    })
}

/// Carrying a plan out leaves the declared cache tariff in force and no other,
/// or none where none is declared, and there is nothing left to do.
pub proof fn law_cache_plan_settles(
    rows: Seq<CacheTariffRow>,
    desired: Option<DesiredCacheTariff>,
    inserted: Seq<CacheTariffRow>,
    after: Seq<CacheTariffRow>,
)
    requires
        is_cache_outcome(rows, desired, inserted, after),
    ensures
        match desired {
            Some(tariff) => after.len() == 1 && same_cache_terms(after[0], tariff),
            None => after.len() == 0,
        },
        overlapping_rows(after) == Seq::<u128>::empty(),
        outdated_row(after, desired) is None,
        !needs_cache_tariff(after, desired),
{
    assert(overlapping_rows(after) =~= Seq::<u128>::empty());
}

/// The newest cache tariff row stays exactly where a tariff is declared that has
/// each of its four multipliers and its prefix length, and the row has no end.
/// Otherwise it is closed, and what is declared is inserted.
pub proof fn law_only_an_equal_cache_row_stays(
    rows: Seq<CacheTariffRow>,
    desired: Option<DesiredCacheTariff>,
)
    ensures
        ({
            let stays = rows.len() > 0 && (desired matches Some(d)
                && rows[0].write_multiplier_5m@.mantissa * ten_to(d.write_multiplier_5m@.scale)
                == d.write_multiplier_5m@.mantissa * ten_to(rows[0].write_multiplier_5m@.scale)
                && rows[0].write_multiplier_1h@.mantissa * ten_to(d.write_multiplier_1h@.scale)
                == d.write_multiplier_1h@.mantissa * ten_to(rows[0].write_multiplier_1h@.scale)
                && rows[0].write_multiplier_24h@.mantissa * ten_to(d.write_multiplier_24h@.scale)
                == d.write_multiplier_24h@.mantissa * ten_to(rows[0].write_multiplier_24h@.scale)
                && rows[0].read_multiplier@.mantissa * ten_to(d.read_multiplier@.scale)
                == d.read_multiplier@.mantissa * ten_to(rows[0].read_multiplier@.scale)
                && rows[0].min_prefix_tokens == d.min_prefix_tokens
                && rows[0].valid_until is None);
            &&& needs_cache_tariff(rows, desired) <==> desired is Some && !stays
            &&& rows.len() > 0 && !stays ==> outdated_row(rows, desired) == Some(rows[0].id)
            &&& rows.len() == 0 || stays ==> outdated_row(rows, desired) is None
        }),
{
}

/// Every cache tariff row but the newest is closed, in order.
pub proof fn law_older_cache_rows_are_closed(rows: Seq<CacheTariffRow>, i: int)
    requires
        1 <= i < rows.len(),
    ensures
        overlapping_rows(rows).len() == rows.len() - 1,
        overlapping_rows(rows)[i - 1] == rows[i].id,
{
}

/// A plan asks no change of a declared tariff exactly where the newest row of its
/// purpose and window has its name, its input price, its output price and no end.
/// Otherwise it inserts the tariff in place of that row, or of none.
pub proof fn law_plans_change_what_differs(
    rows: Vec<TariffRow>,
    desired: Vec<DesiredTariff>,
    plan: TariffPlan,
    k: int,
    i: int,
)
    requires
        call_ensures(plan_tariffs, (&rows, &desired), plan),
        0 <= k < desired@.len() <= usize::MAX,
        forall|l: int|
            0 <= l < desired@.len() && l != k ==> !((#[trigger] desired@[l]).purpose@
                == desired@[k].purpose@ && text_or_none(desired@[l].completion_window)
                == text_or_none(desired@[k].completion_window)),
        0 <= i <= rows@.len(),
        forall|j: int|
            0 <= j < i ==> !(text_or_none((#[trigger] rows@[j]).api_key_purpose) == Some(
                desired@[k].purpose@,
            ) && text_or_none(rows@[j].completion_window) == text_or_none(
                desired@[k].completion_window,
            )),
        i < rows@.len() ==> text_or_none(rows@[i].api_key_purpose) == Some(desired@[k].purpose@)
            && text_or_none(rows@[i].completion_window) == text_or_none(
            desired@[k].completion_window,
        ),
    ensures
        ({
            let stays = i < rows@.len() && rows@[i].name@ == desired@[k].name@
                && rows@[i].input_price_per_token@.mantissa * ten_to(
                desired@[k].input_price_per_token@.scale,
            ) == desired@[k].input_price_per_token@.mantissa * ten_to(
                rows@[i].input_price_per_token@.scale,
            ) && rows@[i].output_price_per_token@.mantissa * ten_to(
                desired@[k].output_price_per_token@.scale,
            ) == desired@[k].output_price_per_token@.mantissa * ten_to(
                rows@[i].output_price_per_token@.scale,
            ) && rows@[i].valid_until is None;
            &&& stays <==> forall|c: int|
                0 <= c < plan.changes@.len() ==> (#[trigger] plan.changes@[c]).tariff != k
            &&& forall|c: int|
                0 <= c < plan.changes@.len() && (#[trigger] plan.changes@[c]).tariff == k
                    ==> plan.changes@[c].replaces == (if i < rows@.len() {
                    Some(rows@[i].id)
                } else {
                    None
                })
        }),
{
    law_only_equal_rows_are_left_in_force(rows@, desired@, k, i);
}

/// A plan closes first every row without a purpose and every row behind a newer
/// one of its purpose and window.
pub proof fn law_plans_close_older_rows(
    rows: Vec<TariffRow>,
    desired: Vec<DesiredTariff>,
    plan: TariffPlan,
    i: int,
    j: int,
)
    requires
        call_ensures(plan_tariffs, (&rows, &desired), plan),
        0 <= i < rows@.len(),
        rows@[i].api_key_purpose is None || (0 <= j < i && text_or_none(rows@[j].api_key_purpose)
            == text_or_none(rows@[i].api_key_purpose) && text_or_none(rows@[j].completion_window)
            == text_or_none(rows@[i].completion_window)),
    ensures
        plan.close_first@.contains(rows@[i].id),
{
    law_older_rows_are_closed_first(rows@, i);
}

/// A plan closes last every newest row of a purpose and window that no declared
/// tariff is for.
pub proof fn law_plans_close_undeclared_rows(
    rows: Vec<TariffRow>,
    desired: Vec<DesiredTariff>,
    plan: TariffPlan,
    i: int,
)
    requires
        call_ensures(plan_tariffs, (&rows, &desired), plan),
        0 <= i < rows@.len(),
        rows@[i].api_key_purpose is Some,
        forall|j: int|
            0 <= j < i ==> !(text_or_none((#[trigger] rows@[j]).api_key_purpose) == text_or_none(
                rows@[i].api_key_purpose,
            ) && text_or_none(rows@[j].completion_window) == text_or_none(
                rows@[i].completion_window,
            )),
        forall|k: int|
            0 <= k < desired@.len() ==> !(text_or_none(rows@[i].api_key_purpose) == Some(
                (#[trigger] desired@[k]).purpose@,
            ) && text_or_none(rows@[i].completion_window) == text_or_none(
                desired@[k].completion_window,
            )),
    ensures
        plan.close_last@.contains(rows@[i].id),
{
    law_undeclared_rows_are_closed_last(rows@, desired@, i);
}

/// A plan for cache tariffs keeps the newest row exactly where it has every
/// declared multiplier, the declared prefix length and no end; otherwise it closes
/// that row and inserts what is declared. It closes every older row.
pub proof fn law_cache_plans_change_what_differs(
    rows: Vec<CacheTariffRow>,
    d: DesiredCacheTariff,
    plan: CacheTariffPlan,
    without: CacheTariffPlan,
    i: int,
)
    requires
        call_ensures(plan_cache_tariff, (&rows, Some(&d)), plan),
        call_ensures(plan_cache_tariff, (&rows, None), without),
        0 <= i < rows@.len(),
    ensures
        ({
            let row = rows@[0];
            let stays = row.write_multiplier_5m@.mantissa * ten_to(d.write_multiplier_5m@.scale)
                == d.write_multiplier_5m@.mantissa * ten_to(row.write_multiplier_5m@.scale)
                && row.write_multiplier_1h@.mantissa * ten_to(d.write_multiplier_1h@.scale)
                == d.write_multiplier_1h@.mantissa * ten_to(row.write_multiplier_1h@.scale)
                && row.write_multiplier_24h@.mantissa * ten_to(d.write_multiplier_24h@.scale)
                == d.write_multiplier_24h@.mantissa * ten_to(row.write_multiplier_24h@.scale)
                && row.read_multiplier@.mantissa * ten_to(d.read_multiplier@.scale)
                == d.read_multiplier@.mantissa * ten_to(row.read_multiplier@.scale)
                && row.min_prefix_tokens == d.min_prefix_tokens && row.valid_until is None;
            &&& plan.insert <==> !stays
            &&& plan.close_active == (if stays {
                None
            } else {
                Some(row.id)
            })
            &&& !without.insert
            &&& without.close_active == Some(row.id)
            &&& plan.close_overlapping@.len() == rows@.len() - 1
            &&& without.close_overlapping@ == plan.close_overlapping@
            &&& i > 0 ==> plan.close_overlapping@[i - 1] == rows@[i].id
        }),
{
    law_only_an_equal_cache_row_stays(rows@, Some(d));
    law_only_an_equal_cache_row_stays(rows@, None);
    if i > 0 {
        law_older_cache_rows_are_closed(rows@, i);
    }
}

}
