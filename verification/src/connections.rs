//! Connections to outside storage, and how a sync of one goes on.

use vstd::prelude::*;
use crate::errors::DbError;
use crate::names::texts;
use crate::text::same_text;
use crate::time::Timestamp;

verus! {

/// Whether a status says that a sync has ended.
pub open spec fn is_final_status(status: Seq<char>) -> bool {
    status == "completed"@ || status == "failed"@ || status == "cancelled"@
}

/// The times that a new status of a sync sets: listing starts it, and a final
/// status ends it.
pub fn status_times(status: &str, now: Timestamp) -> (r: (Option<Timestamp>, Option<Timestamp>))
    ensures
        r.0 == (if status@ == "listing"@ {
            Some(now)
        } else {
            None
        }),
        r.1 == (if is_final_status(status@) {
            Some(now)
        } else {
            None
        }),
{
    let started = if same_text(status, "listing") {
        Some(now)
    } else {
        None
    };
    let completed = if same_text(status, "completed") || same_text(status, "failed") || same_text(
        status,
        "cancelled",
    ) {
        Some(now)
    } else {
        None
    };
    (started, completed)
}

/// No status both starts and ends a sync.
pub proof fn law_no_status_starts_and_ends(status: Seq<char>)
    ensures
        !(status == "listing"@ && is_final_status(status)),
{
    reveal_strlit("listing");
    reveal_strlit("completed");
    reveal_strlit("failed");
    reveal_strlit("cancelled");
    assert("listing"@.len() == 7 && "completed"@.len() == 9 && "failed"@.len() == 6
        && "cancelled"@.len() == 9);
}

/// The statement that adds one to a counter of a sync.
pub open spec fn counter_statement(field: Seq<char>) -> Option<Seq<char>> {
    if field == "files_found"@ {
        Some(
            "UPDATE sync_operations SET files_found = files_found + 1 WHERE id = $1 AND status != 'deleted'"@,
        )
    } else if field == "files_skipped"@ {
        Some(
            "UPDATE sync_operations SET files_skipped = files_skipped + 1 WHERE id = $1 AND status != 'deleted'"@,
        )
    } else if field == "files_ingested"@ {
        Some(
            "UPDATE sync_operations SET files_ingested = files_ingested + 1 WHERE id = $1 AND status != 'deleted'"@,
        )
    } else if field == "files_failed"@ {
        Some(
            "UPDATE sync_operations SET files_failed = files_failed + 1 WHERE id = $1 AND status != 'deleted'"@,
        )
    } else if field == "batches_created"@ {
        Some(
            "UPDATE sync_operations SET batches_created = batches_created + 1 WHERE id = $1 AND status != 'deleted'"@,
        )
    } else {
        None
    }
}

/// The statement that adds one to a counter of a sync. Only the names of counters
/// make a statement, whatever the field.
pub fn counter_query(field: &str) -> (r: Result<&'static str, DbError>)
    ensures
        match counter_statement(field@) {
            Some(statement) => r matches Ok(q) && q@ == statement,
            None => r matches Err(DbError::Other(words)) && words@ == "unknown counter field: "@
                + field@,
        },
{
    if same_text(field, "files_found") {
        Ok(
            "UPDATE sync_operations SET files_found = files_found + 1 WHERE id = $1 AND status != 'deleted'",
        )
    } else if same_text(field, "files_skipped") {
        Ok(
            "UPDATE sync_operations SET files_skipped = files_skipped + 1 WHERE id = $1 AND status != 'deleted'",
        )
    } else if same_text(field, "files_ingested") {
        Ok(
            "UPDATE sync_operations SET files_ingested = files_ingested + 1 WHERE id = $1 AND status != 'deleted'",
        )
    } else if same_text(field, "files_failed") {
        Ok(
            "UPDATE sync_operations SET files_failed = files_failed + 1 WHERE id = $1 AND status != 'deleted'",
        )
    } else if same_text(field, "batches_created") {
        Ok(
            "UPDATE sync_operations SET batches_created = batches_created + 1 WHERE id = $1 AND status != 'deleted'",
        )
    } else {
        Err(DbError::Other("unknown counter field: ".to_owned().concat(field)))
    }
}

/// The status with which a sync ends, from the number of its entries, of those
/// that are done and of those that failed; none while it goes on.
pub open spec fn outcome(total: int, terminal: int, failed: int) -> Option<Seq<char>> {
    if total == 0 || terminal < total {
        None
    } else if failed == total {
        Some("failed"@)
    } else {
        Some("completed"@)
    }
}

/// The status with which a sync ends, or none while it goes on.
pub fn sync_outcome(total: i64, terminal: i64, failed: i64) -> (r: Option<&'static str>)
    ensures
        crate::names::str_or_none(r) == outcome(total as int, terminal as int, failed as int),
{
    if total == 0 || terminal < total {
        return None;
    }
    if failed == total {
        Some("failed")
    } else {
        Some("completed")
    }
}

/// Whether an entry is done.
pub open spec fn is_terminal(status: Seq<char>) -> bool {
    status == "activated"@ || status == "failed"@ || status == "skipped"@
}

/// How many entries are done.
pub open spec fn terminal_entries(statuses: Seq<Seq<char>>) -> int
    decreases statuses.len(),
{
    if statuses.len() == 0 {
        0
    } else {
        terminal_entries(statuses.drop_last()) + if is_terminal(statuses.last()) {
            1int
        } else {
            0int
        }
    }
}

/// How many entries failed.
pub open spec fn failed_entries(statuses: Seq<Seq<char>>) -> int
    decreases statuses.len(),
{
    if statuses.len() == 0 {
        0
    } else {
        failed_entries(statuses.drop_last()) + if statuses.last() == "failed"@ {
            1int
        } else {
            0int
        }
    }
}

/// A sync ends exactly when it has entries and all of them are done. It ends as
/// failed if all of them failed, and as completed if one did not.
pub proof fn law_sync_ends_with_its_entries(statuses: Seq<Seq<char>>)
    ensures
        ({
            let end = outcome(
                statuses.len() as int,
                terminal_entries(statuses),
                failed_entries(statuses),
            );
            let all_done = forall|i: int|
                0 <= i < statuses.len() ==> is_terminal(#[trigger] statuses[i]);
            let all_failed = forall|i: int|
                0 <= i < statuses.len() ==> #[trigger] statuses[i] == "failed"@;
            &&& end is Some <==> statuses.len() > 0 && all_done
            &&& end == Some("failed"@) <==> statuses.len() > 0 && all_failed
            &&& end == Some("completed"@) <==> statuses.len() > 0 && all_done && !all_failed
        }),
{
    lemma_terminal_entries(statuses);
    lemma_failed_entries(statuses);
    reveal_strlit("failed");
    reveal_strlit("completed");
    assert("failed"@.len() == 6 && "completed"@.len() == 9);
    if forall|i: int| 0 <= i < statuses.len() ==> #[trigger] statuses[i] == "failed"@ {
        assert forall|i: int| 0 <= i < statuses.len() implies is_terminal(
            #[trigger] statuses[i],
        ) by {}
    }
}

proof fn lemma_terminal_entries(statuses: Seq<Seq<char>>)
    ensures
        0 <= terminal_entries(statuses) <= statuses.len(),
        terminal_entries(statuses) == statuses.len() <==> forall|i: int|
            0 <= i < statuses.len() ==> is_terminal(#[trigger] statuses[i]),
    decreases statuses.len(),
{
    if statuses.len() > 0 {
        let rest = statuses.drop_last();
        lemma_terminal_entries(rest);
        if terminal_entries(statuses) == statuses.len() {
            assert forall|i: int| 0 <= i < statuses.len() implies is_terminal(
                #[trigger] statuses[i],
            ) by {
                if i < rest.len() {
                    assert(is_terminal(rest[i]));
                }
            }
        }
        if forall|i: int| 0 <= i < statuses.len() ==> is_terminal(#[trigger] statuses[i]) {
            assert forall|i: int| 0 <= i < rest.len() implies is_terminal(#[trigger] rest[i]) by {
                assert(is_terminal(statuses[i]));
            }
            assert(is_terminal(statuses[statuses.len() - 1]));
        }
    }
}

proof fn lemma_failed_entries(statuses: Seq<Seq<char>>)
    ensures
        0 <= failed_entries(statuses) <= statuses.len(),
        failed_entries(statuses) == statuses.len() <==> forall|i: int|
            0 <= i < statuses.len() ==> #[trigger] statuses[i] == "failed"@,
    decreases statuses.len(),
{
    if statuses.len() > 0 {
        let rest = statuses.drop_last();
        lemma_failed_entries(rest);
        if failed_entries(statuses) == statuses.len() {
            assert forall|i: int| 0 <= i < statuses.len() implies #[trigger] statuses[i]
                == "failed"@ by {
                if i < rest.len() {
                    assert(rest[i] == "failed"@);
                }
            }
        }
        if forall|i: int| 0 <= i < statuses.len() ==> #[trigger] statuses[i] == "failed"@ {
            assert forall|i: int| 0 <= i < rest.len() implies #[trigger] rest[i] == "failed"@ by {
                assert(statuses[i] == "failed"@);
            }
            assert(statuses[statuses.len() - 1] == "failed"@);
        }
    }
}

/// New entries of a sync, column by column.
#[derive(Debug)]
pub struct EntryColumns {
    pub keys: Vec<String>,
    pub last_modified: Vec<Option<Timestamp>>,
    pub sizes: Vec<Option<i64>>,
}

/// Discovered files (key, time of last change and size), column by column.
pub fn entry_columns(entries: &Vec<(String, Option<Timestamp>, Option<i64>)>) -> (r: EntryColumns)
    ensures
        texts(r.keys@) == entries@.map_values(
            |e: (String, Option<Timestamp>, Option<i64>)| e.0@,
        ),
        r.last_modified@ == entries@.map_values(
            |e: (String, Option<Timestamp>, Option<i64>)| e.1,
        ),
        r.sizes@ == entries@.map_values(|e: (String, Option<Timestamp>, Option<i64>)| e.2),
{
    let mut keys: Vec<String> = Vec::new();
    let mut last_modified: Vec<Option<Timestamp>> = Vec::new();
    let mut sizes: Vec<Option<i64>> = Vec::new();
    let mut i: usize = 0;
    while i < entries.len()
        invariant
            i <= entries@.len(),
            keys@.len() == i,
            last_modified@.len() == i,
            sizes@.len() == i,
            forall|j: int| 0 <= j < i ==> (#[trigger] keys@[j])@ == entries@[j].0@,
            forall|j: int| 0 <= j < i ==> #[trigger] last_modified@[j] == entries@[j].1,
            forall|j: int| 0 <= j < i ==> #[trigger] sizes@[j] == entries@[j].2,
        decreases entries@.len() - i,
    {
        keys.push(entries[i].0.clone());
        last_modified.push(entries[i].1);
        sizes.push(entries[i].2);
        i = i + 1;
    }
    assert(texts(keys@) =~= entries@.map_values(
        |e: (String, Option<Timestamp>, Option<i64>)| e.0@,
    ));
    assert(last_modified@ =~= entries@.map_values(
        |e: (String, Option<Timestamp>, Option<i64>)| e.1,
    ));
    assert(sizes@ =~= entries@.map_values(|e: (String, Option<Timestamp>, Option<i64>)| e.2));
    EntryColumns { keys, last_modified, sizes }
}

/// Files to look up (key and time of last change), column by column.
pub fn key_columns(files: &Vec<(String, Option<Timestamp>)>) -> (r: (
    Vec<String>,
    Vec<Option<Timestamp>>,
))
    ensures
        texts(r.0@) == files@.map_values(|f: (String, Option<Timestamp>)| f.0@),
        r.1@ == files@.map_values(|f: (String, Option<Timestamp>)| f.1),
{
    let mut keys: Vec<String> = Vec::new();
    let mut dates: Vec<Option<Timestamp>> = Vec::new();
    let mut i: usize = 0;
    while i < files.len()
        invariant
            i <= files@.len(),
            keys@.len() == i,
            dates@.len() == i,
            forall|j: int| 0 <= j < i ==> (#[trigger] keys@[j])@ == files@[j].0@,
            forall|j: int| 0 <= j < i ==> #[trigger] dates@[j] == files@[j].1,
        decreases files@.len() - i,
    {
        keys.push(files[i].0.clone());
        dates.push(files[i].1);
        i = i + 1;
    }
    assert(texts(keys@) =~= files@.map_values(|f: (String, Option<Timestamp>)| f.0@));
    assert(dates@ =~= files@.map_values(|f: (String, Option<Timestamp>)| f.1));
    (keys, dates)
}

/// Listing starts a sync now, its end is now where it is completed, failed or
/// cancelled, and no other status sets a time.
pub proof fn law_statuses_set_their_times(
    status: &str,
    now: Timestamp,
    r: (Option<Timestamp>, Option<Timestamp>),
)
    requires
        call_ensures(status_times, (status, now), r),
    ensures
        r.0 is Some ==> r.0->0 == now,
        r.1 is Some ==> r.1->0 == now,
        r.0 is Some <==> status@ == "listing"@,
        r.1 is Some <==> status@ == "completed"@ || status@ == "failed"@ || status@ == "cancelled"@,
{
}

/// New entries keep their order, and each its key, its time and its size.
pub proof fn law_entries_keep_their_columns(
    entries: Vec<(String, Option<Timestamp>, Option<i64>)>,
    r: EntryColumns,
    i: int,
)
    requires
        call_ensures(entry_columns, (&entries,), r),
        0 <= i < entries@.len(),
    ensures
        r.keys@.len() == entries@.len(),
        r.last_modified@.len() == entries@.len(),
        r.sizes@.len() == entries@.len(),
        r.keys@[i]@ == entries@[i].0@,
        r.last_modified@[i] == entries@[i].1,
        r.sizes@[i] == entries@[i].2,
{
    assert(texts(r.keys@).len() == r.keys@.len());
    assert(texts(r.keys@)[i] == r.keys@[i]@);
}

/// Files to look up keep their order, and each its key and its time.
pub proof fn law_lookups_keep_their_columns(
    files: Vec<(String, Option<Timestamp>)>,
    r: (Vec<String>, Vec<Option<Timestamp>>),
    i: int,
)
    requires
        call_ensures(key_columns, (&files,), r),
        0 <= i < files@.len(),
    ensures
        r.0@.len() == files@.len(),
        r.1@.len() == files@.len(),
        r.0@[i]@ == files@[i].0@,
        r.1@[i] == files@[i].1,
{
    assert(texts(r.0@).len() == r.0@.len());
    assert(texts(r.0@)[i] == r.0@[i]@);
}

/// A sync goes on while it has no entry or one that is not done; then it ends, as
/// failed exactly where every entry failed.
pub proof fn law_sync_outcome_is_final(
    total: i64,
    terminal: i64,
    failed: i64,
    r: Option<&'static str>,
)
    requires
        call_ensures(sync_outcome, (total, terminal, failed), r),
    ensures
        r is None <==> total == 0 || terminal < total,
        r is Some ==> is_final_status((r->0)@),
        r is Some ==> ((r->0)@ == "failed"@ <==> failed == total),
        r is Some ==> ((r->0)@ == "completed"@ <==> failed != total),
{
    reveal_strlit("failed");
    reveal_strlit("completed");
    assert("failed"@.len() == 6 && "completed"@.len() == 9);
}

/// Only the five counters make a statement, and different counters make different
/// ones.
pub proof fn law_counters_have_statements_of_their_own(a: Seq<char>, b: Seq<char>)
    ensures
        counter_statement(a) is Some <==> a == "files_found"@ || a == "files_skipped"@ || a
            == "files_ingested"@ || a == "files_failed"@ || a == "batches_created"@,
        counter_statement(a) is Some && counter_statement(a) == counter_statement(b) ==> a == b,
{
    reveal_strlit(
        "UPDATE sync_operations SET files_found = files_found + 1 WHERE id = $1 AND status != 'deleted'",
    );
    reveal_strlit(
        "UPDATE sync_operations SET files_skipped = files_skipped + 1 WHERE id = $1 AND status != 'deleted'",
    );
    reveal_strlit(
        "UPDATE sync_operations SET files_ingested = files_ingested + 1 WHERE id = $1 AND status != 'deleted'",
    );
    reveal_strlit(
        "UPDATE sync_operations SET files_failed = files_failed + 1 WHERE id = $1 AND status != 'deleted'",
    );
    reveal_strlit(
        "UPDATE sync_operations SET batches_created = batches_created + 1 WHERE id = $1 AND status != 'deleted'",
    );
    if counter_statement(a) is Some && counter_statement(a) == counter_statement(b) {
        let x = counter_statement(a)->0;
        let y = counter_statement(b)->0;
        assert(x[27] == y[27] && x[33] == y[33] && x[34] == y[34] && x.len() == y.len());
    }
}

}
