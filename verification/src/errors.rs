//! What database operations fail with.

use vstd::prelude::*;
use crate::names::text_or_none;
use crate::text::{chars_of, contains_text, find_from, first_place, holds_text, same_text, text_of};

verus! {

/// What a database operation can fail with, as application code handles it.
#[derive(Debug)]
pub enum DbError {
    /// No entity has the given identifier.
    NotFound,
    /// A unique constraint is broken.
    UniqueViolation {
        constraint: Option<String>,
        table: Option<String>,
        message: String,
        /// The value that was there already, where the server's detail gives it.
        conflicting_value: Option<String>,
    },
    /// A foreign key constraint is broken.
    ForeignKeyViolation { constraint: Option<String>, table: Option<String>, message: String },
    /// A check constraint is broken.
    CheckViolation { constraint: Option<String>, table: Option<String>, message: String },
    /// Protection rules of the database forbid the operation.
    ProtectedEntity {
        operation: String,
        reason: String,
        entity_type: String,
        entity_id: Option<String>,
    },
    /// A model name or alias is empty or blank.
    InvalidModelField { field: &'static str },
    /// Every connection of the pool is in use, and waiting for one timed out.
    PoolExhausted,
    /// Anything else, told in words.
    Other(String),
}

/// An error that the database server reported.
#[derive(Debug)]
pub struct ServerError {
    /// The SQLSTATE code.
    pub code: Option<String>,
    pub message: String,
    pub constraint: Option<String>,
    pub table: Option<String>,
    /// The server's detail line.
    pub detail: Option<String>,
    pub is_unique_violation: bool,
    pub is_foreign_key_violation: bool,
    pub is_check_violation: bool,
    /// The whole error in words.
    pub description: String,
}

/// How a database call failed.
#[derive(Debug)]
pub enum StoreFailure {
    RowNotFound,
    PoolTimedOut,
    Server(ServerError),
    /// Any other failure, in words.
    Other(String),
}

/// A row that must be there. Where it is not, nothing has its identifier.
pub fn found<T>(row: Option<T>) -> (r: Result<T, DbError>)
    ensures
        match row {
            Some(value) => r == Ok::<T, DbError>(value),
            None => r matches Err(DbError::NotFound),
        },
{
    match row {
        Some(value) => Ok(value),
        None => Err(DbError::NotFound),
    }
}

/// A counter that a failure adds to.
#[derive(Debug, Clone, Copy, PartialEq, Eq, Structural)]
pub enum FailureCounter {
    PoolAcquireTimeouts,
    CachedPlanErrors,
}

impl FailureCounter {
    /// The counter's metric name.
    pub fn name(self) -> (r: &'static str)
        ensures
            match self {
                FailureCounter::PoolAcquireTimeouts => r@
                    == "dwctl_db_pool_acquire_timeouts_total"@,
                FailureCounter::CachedPlanErrors => r@ == "dwctl_db_cached_plan_errors_total"@,
            },
    {
        match self {
            FailureCounter::PoolAcquireTimeouts => "dwctl_db_pool_acquire_timeouts_total",
            FailureCounter::CachedPlanErrors => "dwctl_db_cached_plan_errors_total",
        }
    }
}

/// Whether a server error says that a cached plan's result type changed. The
/// same SQLSTATE covers other unsupported features, which are not meant.
pub open spec fn is_stale_plan(e: ServerError) -> bool {
    text_or_none(e.code) == Some("0A000"@) && holds_text(
        e.message@,
        "cached plan must not change result type"@,
    )
}

/// The counter that a failure adds to, if any.
pub open spec fn counted(f: StoreFailure) -> Option<FailureCounter> {
    match f {
        StoreFailure::PoolTimedOut => Some(FailureCounter::PoolAcquireTimeouts),
        StoreFailure::Server(e) => if is_stale_plan(e) {
            Some(FailureCounter::CachedPlanErrors)
        } else {
            None
        },
        _ => None,
    }
}

/// The counter that a failure adds to, if any.
pub fn counter_of(failure: &StoreFailure) -> (r: Option<FailureCounter>)
    ensures
        r == counted(*failure),
{
    match failure {
        StoreFailure::PoolTimedOut => Some(FailureCounter::PoolAcquireTimeouts),
        StoreFailure::Server(e) => {
            let unsupported = match &e.code {
                Some(code) => same_text(code.as_str(), "0A000"),
                None => false,
            };
            if unsupported && contains_text(
                e.message.as_str(),
                "cached plan must not change result type",
            ) {
                Some(FailureCounter::CachedPlanErrors)
            } else {
                None
            }
        },
        _ => None,
    }
}

/// The text between the first `=(` of a detail line and the next `)`.
pub open spec fn parenthesized_value(detail: Seq<char>) -> Option<Seq<char>> {
    match first_place(detail, "=("@, 0) {
        Some(start) => match first_place(detail, ")"@, start + 2) {
            Some(end) => Some(detail.subrange(start + 2, end)),
            None => None,
        },
        None => None,
    }
}

/// The conflicting alias of a detail line such as
/// `Key (alias)=(my-alias) already exists.`; only the alias constraint has one.
pub open spec fn conflicting_alias(detail: Seq<char>, constraint: Option<Seq<char>>) -> Option<
    Seq<char>,
> {
    if constraint == Some("deployed_models_alias_unique"@) {
        parenthesized_value(detail)
    } else {
        None
    }
}

/// The conflicting alias that a server's detail line names. Details of other
/// constraints are left alone.
pub fn extract_conflicting_alias(detail: &str, constraint: Option<&str>) -> (r: Option<String>)
    ensures
        text_or_none(r) == conflicting_alias(
            detail@,
            match constraint {
                Some(c) => Some(c@),
                None => None,
            },
        ),
{
    let is_alias = match constraint {
        Some(c) => same_text(c, "deployed_models_alias_unique"),
        None => false,
    };
    if !is_alias {
        return None;
    }
    let chars = chars_of(detail);
    let open = chars_of("=(");
    let close = chars_of(")");
    proof {
        reveal_strlit("=(");
        assert(open@.len() == 2);
    }
    match find_from(&chars, &open, 0) {
        Some(start) => match find_from(&chars, &close, start + 2) {
            Some(end) => Some(text_of(&chars, start + 2, end)),
            None => None,
        },
        None => None,
    }
}

/// Whether an error is what a server error turns into.
pub open spec fn is_server_error_of(r: DbError, e: ServerError) -> bool {
    if e.is_unique_violation {
        r matches DbError::UniqueViolation { constraint, table, message, conflicting_value }
            && constraint == e.constraint && table == e.table && message == e.message && text_or_none(
            conflicting_value,
        ) == (match e.detail {
            Some(d) => conflicting_alias(d@, text_or_none(e.constraint)),
            None => None,
        })
    } else if e.is_foreign_key_violation {
        r == (DbError::ForeignKeyViolation {
            constraint: e.constraint,
            table: e.table,
            message: e.message,
        })
    } else if e.is_check_violation {
        r == (DbError::CheckViolation {
            constraint: e.constraint,
            table: e.table,
            message: e.message,
        })
    } else {
        r == DbError::Other(e.description)
    }
}

impl DbError {
    /// Sorts a failed database call: a missing row, an exhausted pool, one of
    /// the constraint violations, or anything else in words.
    pub fn of_failure(failure: StoreFailure) -> (r: DbError)
        ensures
            match failure {
                StoreFailure::RowNotFound => r == DbError::NotFound,
                StoreFailure::PoolTimedOut => r == DbError::PoolExhausted,
                StoreFailure::Server(e) => is_server_error_of(r, e),
                StoreFailure::Other(description) => r == DbError::Other(description),
            },
    {
        match failure {
            StoreFailure::RowNotFound => DbError::NotFound,
            StoreFailure::PoolTimedOut => DbError::PoolExhausted,
            StoreFailure::Server(e) => {
                if e.is_unique_violation {
                    let conflicting_value = match &e.detail {
                        Some(detail) => extract_conflicting_alias(
                            detail.as_str(),
                            match &e.constraint {
                                Some(c) => Some(c.as_str()),
                                None => None,
                            },
                        ),
                        None => None,
                    };
                    DbError::UniqueViolation {
                        constraint: e.constraint,
                        table: e.table,
                        message: e.message,
                        conflicting_value,
                    }
                } else if e.is_foreign_key_violation {
                    DbError::ForeignKeyViolation {
                        constraint: e.constraint,
                        table: e.table,
                        message: e.message,
                    }
                } else if e.is_check_violation {
                    DbError::CheckViolation {
                        constraint: e.constraint,
                        table: e.table,
                        message: e.message,
                    }
                } else {
                    DbError::Other(e.description)
                }
            },
            StoreFailure::Other(description) => DbError::Other(description),
        }
    }

    /// The error in words.
    pub open spec fn words(self) -> Seq<char> {
        match self {
            DbError::NotFound => "Entity not found"@,
            DbError::UniqueViolation { .. } => "Unique constraint violation"@,
            DbError::ForeignKeyViolation { .. } => "Foreign key constraint violation"@,
            DbError::CheckViolation { .. } => "Check constraint violation"@,
            DbError::ProtectedEntity { operation, reason, entity_type, .. } => operation@
                + " cannot be applied to entity of type "@ + entity_type@ + ": "@ + reason@,
            DbError::InvalidModelField { field } => "Invalid model field: "@ + field@
                + " must not be empty or whitespace"@,
            DbError::PoolExhausted => "Database connection pool exhausted"@,
            DbError::Other(description) => description@,
        }
    }

    /// The error in words.
    pub fn message(&self) -> (r: String)
        ensures
            r@ == self.words(),
    {
        match self {
            DbError::NotFound => "Entity not found".to_owned(),
            DbError::UniqueViolation { .. } => "Unique constraint violation".to_owned(),
            DbError::ForeignKeyViolation { .. } => "Foreign key constraint violation".to_owned(),
            DbError::CheckViolation { .. } => "Check constraint violation".to_owned(),
            DbError::ProtectedEntity { operation, reason, entity_type, .. } => {
                operation.clone().concat(" cannot be applied to entity of type ").concat(
                    entity_type.as_str(),
                ).concat(": ").concat(reason.as_str())
            },
            DbError::InvalidModelField { field } => "Invalid model field: ".to_owned().concat(
                field,
            ).concat(" must not be empty or whitespace"),
            DbError::PoolExhausted => "Database connection pool exhausted".to_owned(),
            DbError::Other(description) => description.clone(),
        }
    }
}

/// A conflicting value is only ever told for the deployment alias constraint.
pub proof fn law_only_alias_conflicts_name_a_value(r: DbError, e: ServerError)
    requires
        is_server_error_of(r, e),
        r matches DbError::UniqueViolation { conflicting_value: Some(_), .. },
    ensures
        text_or_none(e.constraint) == Some("deployed_models_alias_unique"@),
{
}

/// A detail line of the usual shape gives back the alias inside it, whatever the
/// alias holds but a closing parenthesis.
pub proof fn law_alias_is_read_back(before: Seq<char>, alias: Seq<char>, after: Seq<char>)
    requires
        !holds_text(before + "="@, "=("@),
        !alias.contains(')'),
    ensures
        conflicting_alias(
            before + "=("@ + alias + ")"@ + after,
            Some("deployed_models_alias_unique"@),
        ) == Some(alias),
{
    reveal_strlit("=(");
    reveal_strlit("=");
    reveal_strlit(")");
    let open = "=("@;
    let close = ")"@;
    let detail = before + open + alias + close + after;
    let b = before.len() as int;
    crate::text::lemma_first_place(detail, open, 0);
    assert(detail.subrange(b, b + 2) =~= open);
    assert(crate::text::occurs_at(detail, open, b));
    assert forall|j: int| 0 <= j < b implies !crate::text::occurs_at(detail, open, j) by {
        if crate::text::occurs_at(detail, open, j) {
            assert(detail.subrange(j, j + 2) =~= (before + "="@).subrange(j, j + 2));
            assert(crate::text::occurs_at(before + "="@, open, j));
        }
    }
    assert(first_place(detail, open, 0) == Some(b));
    crate::text::lemma_first_place(detail, close, b + 2);
    let e = b + 2 + alias.len();
    assert(detail.subrange(e, e + 1) =~= close);
    assert(crate::text::occurs_at(detail, close, e));
    assert forall|j: int| b + 2 <= j < e implies !crate::text::occurs_at(detail, close, j) by {
        if crate::text::occurs_at(detail, close, j) {
            assert(detail.subrange(j, j + 1)[0] == close[0]);
            assert(alias[j - b - 2] == ')');
        }
    }
    assert(detail.subrange(b + 2, e) =~= alias);
}

/// A server error is sorted by what the server says it is, and keeps its
/// constraint, its table and its message. Any other is told in its own words.
pub proof fn law_server_errors_keep_what_they_say(r: DbError, e: ServerError)
    requires
        is_server_error_of(r, e),
    ensures
        r is UniqueViolation <==> e.is_unique_violation,
        r is ForeignKeyViolation <==> e.is_foreign_key_violation && !e.is_unique_violation,
        r is CheckViolation <==> e.is_check_violation && !e.is_unique_violation
            && !e.is_foreign_key_violation,
        r matches DbError::UniqueViolation { constraint, table, message, .. } ==> constraint
            == e.constraint && table == e.table && message@ == e.message@,
        r matches DbError::ForeignKeyViolation { constraint, table, message } ==> constraint
            == e.constraint && table == e.table && message@ == e.message@,
        r matches DbError::CheckViolation { constraint, table, message } ==> constraint
            == e.constraint && table == e.table && message@ == e.message@,
        !e.is_unique_violation && !e.is_foreign_key_violation && !e.is_check_violation ==> (
        r matches DbError::Other(words) && words@ == e.description@),
{
}

/// A timeout of the pool and a stale plan are counted, each on its own counter,
/// and nothing else is.
pub proof fn law_only_timeouts_and_stale_plans_count(f: StoreFailure)
    ensures
        counted(f) == Some(FailureCounter::PoolAcquireTimeouts) <==> f is PoolTimedOut,
        counted(f) == Some(FailureCounter::CachedPlanErrors) ==> f is Server,
        f is RowNotFound || f is Other ==> counted(f) is None,
        f matches StoreFailure::Server(e) ==> (counted(f) is Some <==> e.code is Some && (
        e.code->0)@ == "0A000"@ && exists|i: int|
            crate::text::occurs_at(e.message@, "cached plan must not change result type"@, i)),
{
}

/// The value of a detail line stands between its first `=(` and the first `)`
/// behind that, and holds no `)` itself.
pub proof fn law_conflicting_value_stands_in_brackets(detail: Seq<char>)
    requires
        parenthesized_value(detail) is Some,
    ensures
        ({
            let value = parenthesized_value(detail)->0;
            &&& exists|start: int|
                #![trigger detail[start]]
                0 <= start && start + 2 + value.len() < detail.len() && detail[start] == '='
                    && detail[start + 1] == '(' && detail[start + 2 + value.len()] == ')'
                    && detail.subrange(start + 2, start + 2 + value.len()) == value
            &&& forall|i: int| 0 <= i < value.len() ==> #[trigger] value[i] != ')'
        }),
{
    reveal_strlit("=(");
    reveal_strlit(")");
    crate::text::lemma_first_place(detail, "=("@, 0);
    let start = first_place(detail, "=("@, 0)->0;
    crate::text::lemma_first_place(detail, ")"@, start + 2);
    let end = first_place(detail, ")"@, start + 2)->0;
    let value = parenthesized_value(detail)->0;
    let front = detail.subrange(start, start + 2);
    assert(front[0] == detail[start] && front[1] == detail[start + 1]);
    assert(detail.subrange(end, end + 1)[0] == detail[end]);
    assert forall|i: int| 0 <= i < value.len() implies #[trigger] value[i] != ')' by {
        let j = start + 2 + i;
        if detail[j] == ')' {
            assert(detail.subrange(j, j + 1) =~= ")"@);
            assert(crate::text::occurs_at(detail, ")"@, j));
        }
    }
}

/// A row that is there is handed on, and one that is not is reported as missing.
pub proof fn law_missing_rows_are_not_found<T>(row: Option<T>, r: Result<T, DbError>)
    requires
        call_ensures(found::<T>, (row,), r),
    ensures
        row is Some ==> r is Ok && r->Ok_0 == row->0,
        row is None ==> r is Err && r->Err_0 is NotFound,
{
}

/// A failed call is sorted by how it failed: a missing row, an exhausted pool, a
/// broken constraint with what the server says of it, or its own words.
pub proof fn law_failures_are_sorted(
    missing: DbError,
    waited: DbError,
    server: DbError,
    other: DbError,
    e: ServerError,
    words: String,
)
    requires
        call_ensures(DbError::of_failure, (StoreFailure::RowNotFound,), missing),
        call_ensures(DbError::of_failure, (StoreFailure::PoolTimedOut,), waited),
        call_ensures(DbError::of_failure, (StoreFailure::Server(e),), server),
        call_ensures(DbError::of_failure, (StoreFailure::Other(words),), other),
    ensures
        missing is NotFound,
        waited is PoolExhausted,
        other matches DbError::Other(w) && w@ == words@,
        server is UniqueViolation <==> e.is_unique_violation,
        server is ForeignKeyViolation <==> e.is_foreign_key_violation && !e.is_unique_violation,
        server is CheckViolation <==> e.is_check_violation && !e.is_unique_violation
            && !e.is_foreign_key_violation,
        server matches DbError::UniqueViolation { constraint, table, message, .. } ==> constraint
            == e.constraint && table == e.table && message@ == e.message@,
        server matches DbError::ForeignKeyViolation { constraint, table, message } ==> constraint
            == e.constraint && table == e.table && message@ == e.message@,
        server matches DbError::CheckViolation { constraint, table, message } ==> constraint
            == e.constraint && table == e.table && message@ == e.message@,
{
    law_server_errors_keep_what_they_say(server, e);
}

/// Each kind of failure counts on the counter of its own.
pub proof fn law_counters_have_names_of_their_own(a: &str, b: &str)
    requires
        call_ensures(FailureCounter::name, (FailureCounter::PoolAcquireTimeouts,), a),
        call_ensures(FailureCounter::name, (FailureCounter::CachedPlanErrors,), b),
    ensures
        a@ != b@,
{
    reveal_strlit("dwctl_db_pool_acquire_timeouts_total");
    reveal_strlit("dwctl_db_cached_plan_errors_total");
    assert(a@.len() != b@.len());
}

/// A failure of no kind of its own is told in the words it was given.
pub proof fn law_other_failures_keep_their_words(description: String)
    ensures
        DbError::Other(description).words() == description@,
{
}

}
