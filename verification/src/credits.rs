//! Credit transactions and balances.

use vstd::prelude::*;
use crate::amount::{law_summand_is_below_the_sum, Amount, Number};
use crate::errors::DbError;
use crate::names::{text_or_none, texts};
use crate::text::{
    contains_text, decimal, decimal_text, holds_text, lower_case, same_text, to_lower_case,
};
use crate::time::Timestamp;

verus! {

/// What a transaction is for.
#[derive(Debug, Clone, Copy, PartialEq, Eq, Structural)]
pub enum CreditTransactionType {
    Purchase,
    AdminGrant,
    AdminRemoval,
    Usage,
}

/// The name of a transaction type in queries.
pub open spec fn name_of_type(t: CreditTransactionType) -> Seq<char> {
    match t {
        CreditTransactionType::Purchase => "purchase"@,
        CreditTransactionType::AdminGrant => "admin_grant"@,
        CreditTransactionType::AdminRemoval => "admin_removal"@,
        CreditTransactionType::Usage => "usage"@,
    }
}

/// The name of a transaction type in queries.
pub fn transaction_type_to_string(t: &CreditTransactionType) -> (r: String)
    ensures
        r@ == name_of_type(*t),
{
    match t {
        CreditTransactionType::Purchase => "purchase".to_owned(),
        CreditTransactionType::AdminGrant => "admin_grant".to_owned(),
        CreditTransactionType::AdminRemoval => "admin_removal".to_owned(),
        CreditTransactionType::Usage => "usage".to_owned(),
    }
}

/// A transaction to record.
#[derive(Debug)]
pub struct CreditTransactionCreateDBRequest {
    pub user_id: u128,
    pub transaction_type: CreditTransactionType,
    pub amount: Amount,
    pub source_id: String,
    pub description: Option<String>,
    pub fusillade_batch_id: Option<u128>,
    pub api_key_id: Option<u128>,
}

/// A transaction as stored.
#[derive(Debug)]
pub struct CreditTransaction {
    pub id: u128,
    pub user_id: u128,
    pub transaction_type: CreditTransactionType,
    pub amount: Amount,
    pub description: Option<String>,
    pub source_id: String,
    pub created_at: Timestamp,
    /// Orders the transactions of all users.
    pub seq: i64,
    pub api_key_id: Option<u128>,
}

/// A transaction as handed out.
#[derive(Debug)]
pub struct CreditTransactionDBResponse {
    pub id: u128,
    pub user_id: u128,
    pub transaction_type: CreditTransactionType,
    pub amount: Amount,
    pub description: Option<String>,
    pub source_id: String,
    pub created_at: Timestamp,
    pub api_key_id: Option<u128>,
}

/// A transaction as handed out: everything but its place in the order.
pub open spec fn response_of(tx: CreditTransaction) -> CreditTransactionDBResponse {
    CreditTransactionDBResponse {
        id: tx.id,
        user_id: tx.user_id,
        transaction_type: tx.transaction_type,
        amount: tx.amount,
        description: tx.description,
        source_id: tx.source_id,
        created_at: tx.created_at,
        api_key_id: tx.api_key_id,
    }
}

impl vstd::std_specs::convert::FromSpecImpl<CreditTransaction> for CreditTransactionDBResponse {
    open spec fn obeys_from_spec() -> bool {
        true
    }

    open spec fn from_spec(tx: CreditTransaction) -> CreditTransactionDBResponse {
        response_of(tx)
    }
}

impl From<CreditTransaction> for CreditTransactionDBResponse {
    fn from(tx: CreditTransaction) -> (r: CreditTransactionDBResponse) {
        CreditTransactionDBResponse {
            id: tx.id,
            user_id: tx.user_id,
            transaction_type: tx.transaction_type,
            amount: tx.amount,
            description: tx.description,
            source_id: tx.source_id,
            created_at: tx.created_at,
            api_key_id: tx.api_key_id,
        }
    }
}

/// A user's balance up to a transaction.
#[derive(Debug, Clone, Copy)]
pub struct BalanceCheckpoint {
    pub user_id: u128,
    pub checkpoint_seq: i64,
    pub balance: Amount,
}

/// Batch transactions taken together.
#[derive(Debug)]
pub struct AggregatedBatches {
    /// The transactions, each with its batch.
    pub batched_transactions: Vec<(CreditTransactionDBResponse, u128)>,
    /// The sources of all transactions that belong to batches.
    pub batched_source_ids: Vec<String>,
}

/// A transaction with what it came from.
#[derive(Debug)]
pub struct TransactionWithCategory {
    pub transaction: CreditTransactionDBResponse,
    pub batch_id: Option<u128>,
    pub request_origin: Option<String>,
    pub batch_sla: Option<String>,
    /// How many requests the batch had; one for a transaction of its own.
    pub batch_count: i32,
}

/// Whether a transaction adds to the balance.
pub open spec fn adds_credit(t: CreditTransactionType) -> bool {
    t is AdminGrant || t is Purchase
}

/// What a transaction does to the balance.
pub open spec fn signed_number(t: CreditTransactionType, amount: Number) -> Number {
    if adds_credit(t) {
        amount
    } else {
        Number { mantissa: -amount.mantissa, scale: amount.scale }
    }
}

/// What a transaction does to the balance: grants and purchases add to it, usage
/// and removals take from it.
pub fn signed_amount(transaction_type: CreditTransactionType, amount: Amount) -> (r: Amount)
    ensures
        r@ == signed_number(transaction_type, amount@),
{
    match transaction_type {
        CreditTransactionType::AdminGrant | CreditTransactionType::Purchase => amount,
        CreditTransactionType::Usage | CreditTransactionType::AdminRemoval => amount.negated(),
    }
}

/// Which way a balance crossed zero.
#[derive(Debug, Clone, Copy, PartialEq, Eq, Structural)]
pub enum ZeroCrossing {
    Upward,
    Downward,
}

/// Whether a balance is above zero after a transaction.
pub open spec fn positive_after(new_balance: Number) -> bool {
    new_balance.mantissa > 0
}

/// Whether the balance was above zero before a transaction: it was the balance
/// after, less the signed amount.
pub open spec fn positive_before(new_balance: Number, signed: Number) -> bool {
    signed.below(new_balance)
}

/// Which way a transaction took the balance across zero, if it did.
pub open spec fn crossing(new_balance: Number, signed: Number) -> Option<ZeroCrossing> {
    if !positive_before(new_balance, signed) && positive_after(new_balance) {
        Some(ZeroCrossing::Upward)
    } else if positive_before(new_balance, signed) && !positive_after(new_balance) {
        Some(ZeroCrossing::Downward)
    } else {
        None
    }
}

/// Whether a transaction took one balance to another: the balance after it is
/// the one before, plus the signed amount.
pub open spec fn takes_balance(old_balance: Number, signed: Number, new_balance: Number) -> bool {
    new_balance.equals(old_balance.plus(signed))
}

/// Which way the step from one balance to another crosses zero, if it does.
pub open spec fn crossing_between(old_balance: Number, new_balance: Number) -> Option<
    ZeroCrossing,
> {
    if old_balance.mantissa <= 0 && new_balance.mantissa > 0 {
        Some(ZeroCrossing::Upward)
    } else if old_balance.mantissa > 0 && new_balance.mantissa <= 0 {
        Some(ZeroCrossing::Downward)
    } else {
        None
    }
}

/// Which way a transaction took the balance across zero, if it did. Key
/// eligibility changes only then. The balance before is not asked for: whatever
/// it was, this compares it with the balance after.
pub fn zero_crossing(new_balance: Amount, signed: Amount) -> (r: Option<ZeroCrossing>)
    ensures
        r == crossing(new_balance@, signed@),
        forall|old_balance: Number| #[trigger]
            takes_balance(old_balance, signed@, new_balance@) ==> r == crossing_between(
                old_balance,
                new_balance@,
            ),
{
    proof {
        assert forall|old_balance: Number| #[trigger]
            takes_balance(old_balance, signed@, new_balance@) implies crossing(
            new_balance@,
            signed@,
        ) == crossing_between(old_balance, new_balance@) by {
            law_summand_is_below_the_sum(old_balance, signed@, new_balance@);
        }
    }
    let was_positive = signed.below(new_balance);
    let is_positive = new_balance.is_positive();
    if !was_positive && is_positive {
        Some(ZeroCrossing::Upward)
    } else if was_positive && !is_positive {
        Some(ZeroCrossing::Downward)
    } else {
        None
    }
}

/// What came of recording a transaction: the transaction as handed out, and the
/// crossing to announce, if there was one. `recorded` is the stored row with the
/// balance after it. Where nothing was recorded, nothing is announced.
pub fn after_recording(
    request: &CreditTransactionCreateDBRequest,
    recorded: Result<(CreditTransaction, Amount), DbError>,
) -> (r: Result<(CreditTransactionDBResponse, Option<ZeroCrossing>), DbError>)
    ensures
        match recorded {
            Ok((tx, new_balance)) => r matches Ok((response, announced)) && response == response_of(
                tx,
            ) && announced == crossing(
                new_balance@,
                signed_number(request.transaction_type, request.amount@),
            ) && forall|old_balance: Number| #[trigger]
                takes_balance(
                    old_balance,
                    signed_number(request.transaction_type, request.amount@),
                    new_balance@,
                ) ==> announced == crossing_between(old_balance, new_balance@),
            Err(e) => r == Err::<(CreditTransactionDBResponse, Option<ZeroCrossing>), DbError>(e),
        },
{
    match recorded {
        Ok((tx, new_balance)) => {
            let signed = signed_amount(request.transaction_type, request.amount);
            Ok((CreditTransactionDBResponse::from(tx), zero_crossing(new_balance, signed)))
        },
        Err(e) => Err(e),
    }
}

/// The message that tells of a crossing, with the time in microseconds.
pub fn crossing_payload(epoch_micros: u128) -> (r: String)
    ensures
        r@ == "credits_transactions:"@ + decimal(epoch_micros as int),
{
    "credits_transactions:".to_owned().concat(decimal_text(epoch_micros).as_str())
}

/// A crossing is told exactly where the balance changed sides: never twice on
/// one side, and upward only by a transaction that adds credit.
pub proof fn law_crossing_is_a_change_of_sides(
    new_balance: Number,
    t: CreditTransactionType,
    amount: Number,
)
    requires
        amount.mantissa >= 0,
    ensures
        crossing(new_balance, signed_number(t, amount)) is Some <==> (positive_before(
            new_balance,
            signed_number(t, amount),
        ) != positive_after(new_balance)),
        crossing(new_balance, signed_number(t, amount)) == Some(ZeroCrossing::Upward)
            ==> adds_credit(t),
        crossing(new_balance, signed_number(t, amount)) == Some(ZeroCrossing::Downward)
            ==> !adds_credit(t),
{
    let signed = signed_number(t, amount);
    crate::amount::lemma_ten_to_positive(signed.scale);
    crate::amount::lemma_ten_to_positive(new_balance.scale);
    let p = ten_to_of(signed);
    let q = ten_to_of(new_balance);
    let m = signed.mantissa;
    let n = new_balance.mantissa;
    if adds_credit(t) {
        if n <= 0 {
            assert(m * q >= 0) by (nonlinear_arith)
                requires
                    m >= 0,
                    q > 0,
            ;
            assert(n * p <= 0) by (nonlinear_arith)
                requires
                    n <= 0,
                    p > 0,
            ;
        }
    } else {
        if n > 0 {
            assert(m * q <= 0) by (nonlinear_arith)
                requires
                    m <= 0,
                    q > 0,
            ;
            assert(n * p > 0) by (nonlinear_arith)
                requires
                    n > 0,
                    p > 0,
            ;
        }
    }
}

/// A transaction is announced exactly where the balance before it and the
/// balance after it are on different sides of zero, however the numbers are
/// written: upward from zero or below, and downward to zero or below.
pub proof fn law_crossing_compares_the_two_balances(
    old_balance: Number,
    new_balance: Number,
    t: CreditTransactionType,
    amount: Number,
)
    requires
        takes_balance(old_balance, signed_number(t, amount), new_balance),
    ensures
        positive_before(new_balance, signed_number(t, amount)) <==> old_balance.mantissa > 0,
        crossing(new_balance, signed_number(t, amount)) is Some <==> (old_balance.mantissa > 0) != (
        new_balance.mantissa > 0),
        crossing(new_balance, signed_number(t, amount)) == crossing_between(
            old_balance,
            new_balance,
        ),
{
    law_summand_is_below_the_sum(old_balance, signed_number(t, amount), new_balance);
}

spec fn ten_to_of(n: Number) -> int {
    crate::amount::ten_to(n.scale)
}

/// What comes next in granting a first-payment match.
#[derive(Debug)]
pub enum MatchStep {
    /// Nothing is to be granted.
    Done,
    /// Find the purchase that the match is for.
    FindPurchase { match_amount: Amount },
    /// See whether the payee has an earlier purchase.
    CheckFirst { match_amount: Amount, purchase_seq: i64 },
    /// Record the bonus.
    Grant(CreditTransactionCreateDBRequest),
}

/// The bonus that a payment is matched with: the payment, up to the limit.
pub open spec fn matched(payment: Amount, match_up_to: Amount) -> Amount {
    if match_up_to@.below(payment@) {
        match_up_to
    } else {
        payment
    }
}

/// Begins a first-payment match. A limit at or below zero switches the promotion
/// off, and a payment at or below zero is not matched.
pub fn begin_match(match_up_to: Amount, payment_amount: Amount) -> (r: MatchStep)
    ensures
        if match_up_to@.mantissa <= 0 || matched(payment_amount, match_up_to)@.mantissa <= 0 {
            r is Done
        } else {
            r == (MatchStep::FindPurchase { match_amount: matched(payment_amount, match_up_to) })
        },
{
    if !match_up_to.is_positive() {
        return MatchStep::Done;
    }
    let match_amount = payment_amount.min(match_up_to);
    if !match_amount.is_positive() {
        return MatchStep::Done;
    }
    MatchStep::FindPurchase { match_amount }
}

/// Goes on with a match once the purchase was looked for: without one there is
/// nothing to match.
pub fn after_purchase(match_amount: Amount, purchase_seq: Option<i64>) -> (r: MatchStep)
    ensures
        match purchase_seq {
            Some(seq) => r == (MatchStep::CheckFirst { match_amount, purchase_seq: seq }),
            None => r is Done,
        },
{
    match purchase_seq {
        Some(seq) => MatchStep::CheckFirst { match_amount, purchase_seq: seq },
        None => MatchStep::Done,
    }
}

/// The source of the bonus for a purchase: every purchase has one of its own, so
/// that recording it twice breaks the unique constraint.
pub open spec fn match_source(purchase_source_id: Seq<char>) -> Seq<char> {
    purchase_source_id + ":first-payment-match"@
}

/// Whether a request records the bonus for a purchase.
pub open spec fn is_match_request(
    request: CreditTransactionCreateDBRequest,
    match_amount: Amount,
    payee: u128,
    purchase_source_id: Seq<char>,
) -> bool {
    &&& request.user_id == payee
    &&& request.transaction_type is AdminGrant
    &&& request.amount == match_amount
    &&& request.source_id@ == match_source(purchase_source_id)
    &&& text_or_none(request.description) == Some(
        "First payment match bonus (matched "@ + match_amount@.digits() + ")"@,
    )
    &&& request.fusillade_batch_id is None
    &&& request.api_key_id is None
}

/// Goes on with a match once it is known whether the purchase is the payee's
/// first: only then is the bonus granted.
pub fn after_check(
    match_amount: Amount,
    payee: u128,
    purchase_source_id: &str,
    is_first: bool,
) -> (r: MatchStep)
    ensures
        if is_first {
            r matches MatchStep::Grant(request) && is_match_request(
                request,
                match_amount,
                payee,
                purchase_source_id@,
            )
        } else {
            r is Done
        },
{
    if !is_first {
        return MatchStep::Done;
    }
    MatchStep::Grant(
        CreditTransactionCreateDBRequest {
            user_id: payee,
            transaction_type: CreditTransactionType::AdminGrant,
            amount: match_amount,
            source_id: purchase_source_id.to_owned().concat(":first-payment-match"),
            description: Some(
                "First payment match bonus (matched ".to_owned().concat(
                    match_amount.text().as_str(),
                ).concat(")"),
            ),
            fusillade_batch_id: None,
            api_key_id: None,
        },
    )
}

/// Whether an error says that a transaction of that source is there already.
pub open spec fn is_repeated_source(e: DbError) -> bool {
    e matches DbError::UniqueViolation { constraint, .. } && text_or_none(constraint) == Some(
        "credits_transactions_source_id_unique"@,
    )
}

/// Ends a match once the bonus was recorded. That it was there already is as
/// good.
pub fn after_grant(recorded: Result<(), DbError>) -> (r: Result<(), DbError>)
    ensures
        match recorded {
            Ok(_) => r is Ok,
            Err(e) => if is_repeated_source(e) {
                r is Ok
            } else {
                r == Result::<(), DbError>::Err(e)
            },
        },
{
    match recorded {
        Ok(_) => Ok(()),
        Err(DbError::UniqueViolation { constraint, table, message, conflicting_value }) => {
            let repeated = match &constraint {
                Some(c) => same_text(c.as_str(), "credits_transactions_source_id_unique"),
                None => false,
            };
            if repeated {
                Ok(())
            } else {
                Err(DbError::UniqueViolation { constraint, table, message, conflicting_value })
            }
        },
        Err(e) => Err(e),
    }
}

/// A bonus is one of the payment and the limit, and no more than either.
pub proof fn law_match_is_bounded(payment: Amount, match_up_to: Amount)
    ensures
        !match_up_to@.below(matched(payment, match_up_to)@),
        !payment@.below(matched(payment, match_up_to)@),
        matched(payment, match_up_to) == payment || matched(payment, match_up_to) == match_up_to,
{
    let a = payment@;
    let b = match_up_to@;
    assert(!a.below(a));
    assert(!b.below(b));
    if b.below(a) {
        assert(!a.below(b));
    }
}

/// Two purchases have the same bonus source only if they are the same, so no
/// purchase keeps another's bonus from being granted.
pub proof fn law_match_sources_differ(a: Seq<char>, b: Seq<char>)
    requires
        match_source(a) == match_source(b),
    ensures
        a == b,
{
    let suffix = ":first-payment-match"@;
    assert((a + suffix).len() == (b + suffix).len());
    assert(a =~= (a + suffix).take(a.len() as int));
    assert(b =~= (b + suffix).take(b.len() as int));
}

/// A user's balance: zero for a user without a checkpoint.
pub fn balance_or_zero(balance: Option<Amount>) -> (r: Amount)
    ensures
        match balance {
            Some(b) => r == b,
            None => r@ == (Number { mantissa: 0, scale: 0 }),
        },
{
    match balance {
        Some(b) => b,
        None => Amount::zero(),
    }
}

/// What a list of transactions is narrowed to.
#[derive(Debug)]
pub struct TransactionFilters {
    pub search: Option<String>,
    pub transaction_types: Option<Vec<CreditTransactionType>>,
    pub start_date: Option<Timestamp>,
    pub end_date: Option<Timestamp>,
}

/// The names of the transaction types that a list is narrowed to.
pub fn type_names(types: &Option<Vec<CreditTransactionType>>) -> (r: Option<Vec<String>>)
    ensures
        match types {
            Some(list) => r matches Some(names) && texts(names@) == list@.map_values(
                |t: CreditTransactionType| name_of_type(t),
            ),
            None => r is None,
        },
{
    match types {
        Some(list) => {
            let mut out: Vec<String> = Vec::new();
            let mut i: usize = 0;
            while i < list.len()
                invariant
                    i <= list@.len(),
                    out@.len() == i,
                    forall|j: int| 0 <= j < i ==> (#[trigger] out@[j])@ == name_of_type(list@[j]),
                decreases list@.len() - i,
            {
                out.push(transaction_type_to_string(&list[i]));
                i = i + 1;
            }
            assert(texts(out@) =~= list@.map_values(|t: CreditTransactionType| name_of_type(t)));
            Some(out)
        },
        None => None,
    }
}

/// Whether batches, which are always usage, can be in a list.
pub open spec fn includes_usage(types: Option<Seq<CreditTransactionType>>) -> bool {
    match types {
        Some(list) => list.contains(CreditTransactionType::Usage),
        None => true,
    }
}

fn has_usage(list: &Vec<CreditTransactionType>) -> (r: bool)
    ensures
        r == list@.contains(CreditTransactionType::Usage),
{
    let mut i: usize = 0;
    while i < list.len()
        invariant
            i <= list@.len(),
            forall|j: int| 0 <= j < i ==> list@[j] != CreditTransactionType::Usage,
        decreases list@.len() - i,
    {
        if list[i] == CreditTransactionType::Usage {
            assert(list@[i as int] == CreditTransactionType::Usage);
            return true;
        }
        i = i + 1;
    }
    false
}

/// Whether batches, which are always usage, can be in a list.
pub fn include_batches(types: &Option<Vec<CreditTransactionType>>) -> (r: bool)
    ensures
        r == includes_usage(
            match types {
                Some(list) => Some(list@),
                None => None,
            },
        ),
{
    match types {
        Some(list) => has_usage(list),
        None => true,
    }
}

/// Whether a search can find the description of batches: one is in the other,
/// whatever the case.
pub open spec fn finds_batches(search: Option<Seq<char>>) -> bool {
    match search {
        Some(s) => holds_text("batch"@, lower_case(s)) || holds_text(lower_case(s), "batch"@),
        None => true,
    }
}

/// Whether a search can find the description of batches. The lower-case search
/// is handed in.
pub fn lower_case_finds_batches(lowered: &str) -> (r: bool)
    ensures
        r == (holds_text("batch"@, lowered@) || holds_text(lowered@, "batch"@)),
{
    contains_text("batch", lowered) || contains_text(lowered, "batch")
}

/// Whether a search can find the description of batches.
pub fn search_matches_batch(search: &Option<String>) -> (r: bool)
    ensures
        r == finds_batches(text_or_none(*search)),
{
    match search {
        Some(s) => lower_case_finds_batches(to_lower_case(s.as_str()).as_str()),
        None => true,
    }
}

/// How many rows each half of a grouped list has to give for a page of it.
pub fn grouped_fetch_limit(skip: i64, limit: i64) -> (r: i64)
    requires
        i64::MIN <= skip + limit <= i64::MAX,
    ensures
        r == skip + limit,
{
    skip + limit
}

/// A row of the grouped list.
#[derive(Debug)]
pub struct GroupedRow {
    pub id: Option<u128>,
    pub user_id: Option<u128>,
    pub transaction_type: CreditTransactionType,
    pub amount: Option<Amount>,
    pub source_id: Option<String>,
    pub description: Option<String>,
    pub created_at: Option<Timestamp>,
    pub batch_id: Option<u128>,
    pub batch_count: Option<i32>,
    pub request_origin: Option<String>,
    pub batch_sla: Option<String>,
}

/// The first column that must not be null but is.
pub open spec fn null_column(row: GroupedRow) -> Option<Seq<char>> {
    if row.id is None {
        Some("id"@)
    } else if row.user_id is None {
        Some("user_id"@)
    } else if row.amount is None {
        Some("amount"@)
    } else if row.source_id is None {
        Some("source_id"@)
    } else if row.created_at is None {
        Some("created_at"@)
    } else {
        None
    }
}

/// The item of a row without such a null.
pub open spec fn grouped_item(row: GroupedRow) -> TransactionWithCategory {
    TransactionWithCategory {
        transaction: CreditTransactionDBResponse {
            id: row.id->0,
            user_id: row.user_id->0,
            transaction_type: row.transaction_type,
            amount: row.amount->0,
            description: row.description,
            source_id: row.source_id->0,
            created_at: row.created_at->0,
            api_key_id: None,
        },
        batch_id: row.batch_id,
        request_origin: row.request_origin,
        batch_sla: row.batch_sla,
        batch_count: match row.batch_count {
            Some(n) => n,
            None => 1,
        },
    }
}

fn null_error(column: &str) -> (r: DbError)
    ensures
        r matches DbError::Other(s) && s@
            == "encountered unexpected or invalid data: Query returned NULL "@ + column@,
{
    DbError::Other(
        "encountered unexpected or invalid data: Query returned NULL ".to_owned().concat(column),
    )
}

fn grouped_item_of(row: GroupedRow) -> (r: Result<TransactionWithCategory, DbError>)
    ensures
        match null_column(row) {
            Some(column) => r matches Err(DbError::Other(s)) && s@
                == "encountered unexpected or invalid data: Query returned NULL "@ + column,
            None => r == Result::<TransactionWithCategory, DbError>::Ok(grouped_item(row)),
        },
{
    let id = match row.id {
        Some(id) => id,
        None => {
            return Err(null_error("id"));
        },
    };
    let user_id = match row.user_id {
        Some(user_id) => user_id,
        None => {
            return Err(null_error("user_id"));
        },
    };
    let amount = match row.amount {
        Some(amount) => amount,
        None => {
            return Err(null_error("amount"));
        },
    };
    let source_id = match row.source_id {
        Some(source_id) => source_id,
        None => {
            return Err(null_error("source_id"));
        },
    };
    let created_at = match row.created_at {
        Some(created_at) => created_at,
        None => {
            return Err(null_error("created_at"));
        },
    };
    Ok(
        TransactionWithCategory {
            transaction: CreditTransactionDBResponse {
                id,
                user_id,
                transaction_type: row.transaction_type,
                amount,
                description: row.description,
                source_id,
                created_at,
                api_key_id: None,
            },
            batch_id: row.batch_id,
            request_origin: row.request_origin,
            batch_sla: row.batch_sla,
            batch_count: match row.batch_count {
                Some(n) => n,
                None => 1,
            },
        },
    )
}

/// The first row from `from` on with a null that must not be.
pub open spec fn first_null_row(rows: Seq<GroupedRow>, from: int) -> Option<int>
    decreases rows.len() - from,
{
    if from >= rows.len() {
        None
    } else if null_column(rows[from]) is Some {
        Some(from)
    } else {
        first_null_row(rows, from + 1)
    }
}

/// The items of a grouped list, in the order of its rows; a null that must not
/// be there is an error.
pub fn grouped_items(rows: Vec<GroupedRow>) -> (r: Result<Vec<TransactionWithCategory>, DbError>)
    ensures
        match first_null_row(rows@, 0) {
            Some(i) => r matches Err(DbError::Other(s)) && s@
                == "encountered unexpected or invalid data: Query returned NULL "@ + null_column(
                rows@[i],
            )->0,
            None => r matches Ok(items) && items@ == rows@.map_values(
                |row: GroupedRow| grouped_item(row),
            ),
        },
{
    let ghost all = rows@;
    let mut items: Vec<TransactionWithCategory> = Vec::new();
    for row in it: rows
        invariant
            it.seq() == all,
            items@.len() == it.index(),
            forall|j: int| 0 <= j < it.index() ==> items@[j] == grouped_item(#[trigger] all[j]),
            first_null_row(all, 0) == first_null_row(all, it.index() as int),
    {
        match grouped_item_of(row) {
            Ok(item) => {
                items.push(item);
            },
            Err(e) => {
                return Err(e);
            },
        }
    }
    assert(items@ =~= all.map_values(|row: GroupedRow| grouped_item(row)));
    Ok(items)
}

/// Transactions as handed out.
pub fn responses(transactions: Vec<CreditTransaction>) -> (r: Vec<CreditTransactionDBResponse>)
    ensures
        r@ == transactions@.map_values(|tx: CreditTransaction| response_of(tx)),
{
    let ghost all = transactions@;
    let mut out: Vec<CreditTransactionDBResponse> = Vec::new();
    for tx in it: transactions
        invariant
            it.seq() == all,
            out@.len() == it.index(),
            forall|j: int| 0 <= j < it.index() ==> out@[j] == response_of(#[trigger] all[j]),
    {
        out.push(CreditTransactionDBResponse::from(tx));
    }
    assert(out@ =~= all.map_values(|tx: CreditTransaction| response_of(tx)));
    out
}

/// Each item of a grouped list is its row's: the transaction of the row, its
/// batch, and the number of requests that the row counts, which is one only where
/// the row has no count.
pub proof fn law_grouped_items_keep_their_rows(
    rows: Seq<GroupedRow>,
    items: Seq<TransactionWithCategory>,
    i: int,
)
    requires
        items == rows.map_values(|row: GroupedRow| grouped_item(row)),
        0 <= i < rows.len(),
        rows[i].id is Some,
        rows[i].user_id is Some,
        rows[i].amount is Some,
        rows[i].source_id is Some,
        rows[i].created_at is Some,
    ensures
        items.len() == rows.len(),
        rows[i].batch_count == Some(items[i].batch_count) || (rows[i].batch_count is None
            && items[i].batch_count == 1),
        rows[i].id == Some(items[i].transaction.id),
        rows[i].user_id == Some(items[i].transaction.user_id),
        rows[i].amount == Some(items[i].transaction.amount),
        rows[i].source_id == Some(items[i].transaction.source_id),
        rows[i].created_at == Some(items[i].transaction.created_at),
        items[i].transaction.transaction_type == rows[i].transaction_type,
        items[i].transaction.description == rows[i].description,
        items[i].transaction.api_key_id is None,
        items[i].batch_id == rows[i].batch_id,
        items[i].request_origin == rows[i].request_origin,
        items[i].batch_sla == rows[i].batch_sla,
{
}

/// How many requests grouped items stand for, all together.
pub open spec fn requests_of_items(items: Seq<TransactionWithCategory>) -> int
    decreases items.len(),
{
    if items.len() == 0 {
        0
    } else {
        requests_of_items(items.drop_last()) + items.last().batch_count
    }
}

/// How many requests grouped rows count, all together, a row without a count as
/// one.
pub open spec fn requests_of_rows(rows: Seq<GroupedRow>) -> int
    decreases rows.len(),
{
    if rows.len() == 0 {
        0
    } else if rows.last().batch_count is Some {
        requests_of_rows(rows.drop_last()) + rows.last().batch_count->0
    } else {
        requests_of_rows(rows.drop_last()) + 1
    }
}

/// A grouped list stands for as many requests as its rows count.
pub proof fn law_grouped_items_count_all_requests(
    rows: Seq<GroupedRow>,
    items: Seq<TransactionWithCategory>,
)
    requires
        items == rows.map_values(|row: GroupedRow| grouped_item(row)),
    ensures
        requests_of_items(items) == requests_of_rows(rows),
    decreases rows.len(),
{
    if rows.len() > 0 {
        let item = |row: GroupedRow| grouped_item(row);
        assert(items.drop_last() =~= rows.drop_last().map_values(item));
        law_grouped_items_count_all_requests(rows.drop_last(), items.drop_last());
        assert(items.last() == grouped_item(rows.last()));
    }
}

/// A grouped row is refused exactly where it lacks its identifier, its user, its
/// amount, its source or its time, and the first of these that it lacks is named.
pub proof fn law_incomplete_rows_are_refused(row: GroupedRow)
    ensures
        null_column(row) is None <==> row.id is Some && row.user_id is Some && row.amount is Some
            && row.source_id is Some && row.created_at is Some,
        row.id is None ==> null_column(row) == Some("id"@),
        row.id is Some && row.user_id is None ==> null_column(row) == Some("user_id"@),
        row.id is Some && row.user_id is Some && row.amount is None ==> null_column(row) == Some(
            "amount"@,
        ),
        row.id is Some && row.user_id is Some && row.amount is Some && row.source_id is None
            ==> null_column(row) == Some("source_id"@),
        row.id is Some && row.user_id is Some && row.amount is Some && row.source_id is Some
            && row.created_at is None ==> null_column(row) == Some("created_at"@),
{
}

/// A grouped list is refused for its first incomplete row, and for none where
/// every row is whole.
pub proof fn law_first_incomplete_row_refuses(rows: Seq<GroupedRow>, from: int)
    requires
        0 <= from <= rows.len(),
    ensures
        match first_null_row(rows, from) {
            Some(i) => from <= i < rows.len() && (rows[i].id is None || rows[i].user_id is None
                || rows[i].amount is None || rows[i].source_id is None || rows[i].created_at is None)
                && forall|j: int|
                from <= j < i ==> (#[trigger] rows[j]).id is Some && rows[j].user_id is Some
                    && rows[j].amount is Some && rows[j].source_id is Some
                    && rows[j].created_at is Some,
            None => forall|j: int|
                from <= j < rows.len() ==> (#[trigger] rows[j]).id is Some && rows[j].user_id is Some
                    && rows[j].amount is Some && rows[j].source_id is Some
                    && rows[j].created_at is Some,
        },
    decreases rows.len() - from,
{
    if from < rows.len() {
        law_first_incomplete_row_refuses(rows, from + 1);
    }
}

/// A transaction is handed out with everything but its place in the order.
pub proof fn law_responses_keep_their_transactions(tx: CreditTransaction)
    ensures
        ({
            let r = response_of(tx);
            &&& r.id == tx.id
            &&& r.user_id == tx.user_id
            &&& r.transaction_type == tx.transaction_type
            &&& r.amount == tx.amount
            &&& r.description == tx.description
            &&& r.source_id == tx.source_id
            &&& r.created_at == tx.created_at
            &&& r.api_key_id == tx.api_key_id
        }),
{
}

/// Grants and purchases add their amount to a balance, and usage and removals
/// take it away: what was added or taken gives back the old balance.
pub proof fn law_transactions_move_the_balance(t: CreditTransactionType, amount: Number)
    ensures
        t is Purchase || t is AdminGrant ==> signed_number(t, amount) == amount,
        t is Usage || t is AdminRemoval ==> amount.plus(signed_number(t, amount)).mantissa == 0,
        signed_number(t, amount).scale == amount.scale,
{
    let m = amount.mantissa;
    let p = crate::amount::ten_to(amount.scale);
    assert(m * p + (-m) * p == 0) by (nonlinear_arith);
}

/// No two transaction types have the same name.
pub proof fn law_transaction_types_have_names_of_their_own(
    a: CreditTransactionType,
    b: CreditTransactionType,
)
    requires
        name_of_type(a) == name_of_type(b),
    ensures
        a == b,
{
    reveal_strlit("purchase");
    reveal_strlit("admin_grant");
    reveal_strlit("admin_removal");
    reveal_strlit("usage");
    assert("purchase"@.len() == 8 && "admin_grant"@.len() == 11 && "admin_removal"@.len() == 13
        && "usage"@.len() == 5);
}

/// The bonus for a purchase is a grant of the matched amount to the payee, for no
/// batch and no key.
pub proof fn law_bonus_goes_to_the_payee(
    request: CreditTransactionCreateDBRequest,
    match_amount: Amount,
    payee: u128,
    purchase_source_id: Seq<char>,
)
    requires
        is_match_request(request, match_amount, payee, purchase_source_id),
    ensures
        request.user_id == payee,
        request.amount == match_amount,
        signed_number(request.transaction_type, request.amount@) == match_amount@,
        request.source_id@.len() > purchase_source_id.len(),
        request.source_id@.take(purchase_source_id.len() as int) == purchase_source_id,
        request.fusillade_batch_id is None,
        request.api_key_id is None,
{
    reveal_strlit(":first-payment-match");
    assert(request.source_id@.take(purchase_source_id.len() as int) =~= purchase_source_id);
}

/// Batches can be in a list exactly where it is not narrowed, or where usage is
/// among the types that it is narrowed to.
pub proof fn law_batches_are_usage(list: Seq<CreditTransactionType>)
    ensures
        includes_usage(None),
        includes_usage(Some(list)) <==> exists|i: int|
            0 <= i < list.len() && (#[trigger] list[i]) is Usage,
{
    if includes_usage(Some(list)) {
        let i = choose|i: int| 0 <= i < list.len() && list[i] == CreditTransactionType::Usage;
        assert(list[i] is Usage);
    }
    if exists|i: int| 0 <= i < list.len() && (#[trigger] list[i]) is Usage {
        let i = choose|i: int| 0 <= i < list.len() && (#[trigger] list[i]) is Usage;
        assert(list[i] == CreditTransactionType::Usage);
    }
}

/// A grouped list gives an item for every row, in order, with the row's amount and
/// the number of requests that the row counts; where it gives none, some row lacks
/// what it must have.
pub proof fn law_grouped_lists_are_their_rows(
    rows: Vec<GroupedRow>,
    r: Result<Vec<TransactionWithCategory>, DbError>,
    i: int,
)
    requires
        call_ensures(grouped_items, (rows,), r),
        0 <= i < rows@.len(),
    ensures
        r is Ok <==> forall|j: int|
            0 <= j < rows@.len() ==> (#[trigger] rows@[j]).id is Some && rows@[j].user_id is Some
                && rows@[j].amount is Some && rows@[j].source_id is Some
                && rows@[j].created_at is Some,
        r matches Ok(items) ==> items@.len() == rows@.len() && (rows@[i].batch_count == Some(
            items@[i].batch_count,
        ) || (rows@[i].batch_count is None && items@[i].batch_count == 1)) && rows@[i].amount
            == Some(items@[i].transaction.amount) && rows@[i].id == Some(
            items@[i].transaction.id,
        ) && rows@[i].user_id == Some(items@[i].transaction.user_id) && rows@[i].source_id == Some(
            items@[i].transaction.source_id,
        ) && rows@[i].created_at == Some(items@[i].transaction.created_at)
            && items@[i].transaction.transaction_type == rows@[i].transaction_type
            && items@[i].transaction.description == rows@[i].description
            && items@[i].batch_id == rows@[i].batch_id && items@[i].request_origin
            == rows@[i].request_origin && items@[i].batch_sla == rows@[i].batch_sla,
{
    law_first_incomplete_row_refuses(rows@, 0);
    if let Ok(items) = r {
        assert(rows@[i].id is Some);
        law_grouped_items_keep_their_rows(rows@, items@, i);
    }
}

/// What a transaction does to the balance is its amount, or what takes that amount
/// away again.
pub proof fn law_signed_amounts_move_the_balance(
    t: CreditTransactionType,
    amount: Amount,
    r: Amount,
)
    requires
        call_ensures(signed_amount, (t, amount), r),
    ensures
        t is Purchase || t is AdminGrant ==> r@ == amount@,
        t is Usage || t is AdminRemoval ==> r@.mantissa == -amount@.mantissa && r@.scale
            == amount@.scale,
{
}

/// A match goes on only for a positive limit and a positive payment, with the
/// smaller of the two.
pub proof fn law_matches_begin_with_the_smaller(limit: Amount, payment: Amount, r: MatchStep)
    requires
        call_ensures(begin_match, (limit, payment), r),
    ensures
        r is Done || r is FindPurchase,
        limit@.mantissa <= 0 || payment@.mantissa <= 0 ==> r is Done,
        limit@.mantissa > 0 && payment@.mantissa > 0 ==> r is FindPurchase,
        r matches MatchStep::FindPurchase { match_amount } ==> (match_amount == limit || match_amount
            == payment) && !limit@.below(match_amount@) && !payment@.below(match_amount@),
{
    law_match_is_bounded(payment, limit);
    crate::amount::lemma_ten_to_positive(limit@.scale);
    crate::amount::lemma_ten_to_positive(payment@.scale);
    let (a, b) = (limit@.mantissa, payment@.mantissa);
    let (p, q) = (crate::amount::ten_to(limit@.scale), crate::amount::ten_to(payment@.scale));
    if a > 0 && b <= 0 {
        assert(a * q > 0) by (nonlinear_arith)
            requires
                a > 0,
                q > 0,
        ;
        assert(b * p <= 0) by (nonlinear_arith)
            requires
                b <= 0,
                p > 0,
        ;
    }
}

/// A match goes on to the check of a purchase that was found, with the same
/// amount, and ends without one.
pub proof fn law_matches_need_a_purchase(amount: Amount, seq: Option<i64>, r: MatchStep)
    requires
        call_ensures(after_purchase, (amount, seq), r),
    ensures
        seq is None ==> r is Done,
        seq is Some ==> (r matches MatchStep::CheckFirst { match_amount, purchase_seq }
            && match_amount == amount && purchase_seq == seq->0),
{
}

/// A bonus is granted for a first purchase only: the matched amount, to the payee,
/// under a source that begins with the purchase's.
pub proof fn law_only_first_purchases_are_matched(
    amount: Amount,
    payee: u128,
    source: &str,
    is_first: bool,
    r: MatchStep,
)
    requires
        call_ensures(after_check, (amount, payee, source, is_first), r),
    ensures
        !is_first ==> r is Done,
        is_first ==> (r matches MatchStep::Grant(request) && request.user_id == payee
            && request.amount == amount && signed_number(request.transaction_type, request.amount@)
            == amount@ && request.source_id@.len() > source@.len() && request.source_id@.take(
            source@.len() as int,
        ) == source@ && request.fusillade_batch_id is None && request.api_key_id is None),
{
    if let MatchStep::Grant(request) = r {
        law_bonus_goes_to_the_payee(request, amount, payee, source@);
    }
}

/// A bonus that is there already is as good as a new one, and no other failure is.
pub proof fn law_only_repeated_bonuses_are_forgiven(e: DbError, r: Result<(), DbError>)
    requires
        call_ensures(after_grant, (Err(e),), r),
    ensures
        r is Ok <==> (e matches DbError::UniqueViolation { constraint, .. } && constraint is Some
            && (constraint->0)@ == "credits_transactions_source_id_unique"@),
        r is Err ==> r->Err_0 == e,
{
}

/// A balance that is stored is the balance, and without one it is zero.
pub proof fn law_missing_balances_are_zero(balance: Option<Amount>, r: Amount)
    requires
        call_ensures(balance_or_zero, (balance,), r),
    ensures
        balance is Some ==> r == balance->0,
        balance is None ==> r@.mantissa == 0,
{
}

/// A recorded transaction is handed out as it was stored, and announced exactly
/// where the balance before it and the balance after it are on different sides of
/// zero; one that was not recorded is its error.
pub proof fn law_recorded_transactions_are_announced(
    request: CreditTransactionCreateDBRequest,
    tx: CreditTransaction,
    new_balance: Amount,
    old_balance: Number,
    r: Result<(CreditTransactionDBResponse, Option<ZeroCrossing>), DbError>,
    e: DbError,
    failed: Result<(CreditTransactionDBResponse, Option<ZeroCrossing>), DbError>,
)
    requires
        call_ensures(after_recording, (&request, Ok((tx, new_balance))), r),
        call_ensures(after_recording, (&request, Err(e)), failed),
        new_balance@.equals(
            old_balance.plus(signed_number(request.transaction_type, request.amount@)),
        ),
    ensures
        r is Ok,
        r->Ok_0.0.id == tx.id,
        r->Ok_0.0.user_id == tx.user_id,
        r->Ok_0.0.amount == tx.amount,
        r->Ok_0.0.transaction_type == tx.transaction_type,
        r->Ok_0.0.source_id == tx.source_id,
        r->Ok_0.0.description == tx.description,
        r->Ok_0.0.created_at == tx.created_at,
        r->Ok_0.0.api_key_id == tx.api_key_id,
        r->Ok_0.1 == Some(ZeroCrossing::Upward) <==> old_balance.mantissa <= 0
            && new_balance@.mantissa > 0,
        r->Ok_0.1 == Some(ZeroCrossing::Downward) <==> old_balance.mantissa > 0
            && new_balance@.mantissa <= 0,
        failed is Err,
        failed->Err_0 == e,
{
    law_crossing_compares_the_two_balances(
        old_balance,
        new_balance@,
        request.transaction_type,
        request.amount@,
    );
}

/// A page of a grouped list needs all rows up to its end from each half.
pub proof fn law_grouped_pages_reach_their_end(skip: i64, limit: i64, r: i64)
    requires
        call_ensures(grouped_fetch_limit, (skip, limit), r),
    ensures
        r == skip + limit,
{
}

/// A search finds batches exactly where it stands in `batch`, or that in it, in
/// lower case; no search finds all.
pub proof fn law_searches_find_batches(search: Option<String>, r: bool)
    requires
        call_ensures(search_matches_batch, (&search,), r),
    ensures
        search is None ==> r,
        search is Some ==> (r <==> (exists|i: int|
            crate::text::occurs_at("batch"@, lower_case((search->0)@), i)) || (exists|i: int|
            crate::text::occurs_at(lower_case((search->0)@), "batch"@, i))),
{
}

/// Transactions are handed out in order, each as it is stored.
pub proof fn law_listed_transactions_are_as_stored(
    transactions: Vec<CreditTransaction>,
    r: Vec<CreditTransactionDBResponse>,
    i: int,
)
    requires
        call_ensures(responses, (transactions,), r),
        0 <= i < transactions@.len(),
    ensures
        r@.len() == transactions@.len(),
        r@[i].id == transactions@[i].id,
        r@[i].user_id == transactions@[i].user_id,
        r@[i].amount == transactions@[i].amount,
        r@[i].transaction_type == transactions@[i].transaction_type,
        r@[i].source_id == transactions@[i].source_id,
        r@[i].description == transactions@[i].description,
        r@[i].created_at == transactions@[i].created_at,
        r@[i].api_key_id == transactions@[i].api_key_id,
{
}

}
