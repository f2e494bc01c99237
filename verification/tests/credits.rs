use dwctl::amount::Amount;
use dwctl::credits::{
    after_check, after_grant, after_purchase, after_recording, balance_or_zero, begin_match,
    crossing_payload, grouped_fetch_limit, grouped_items, include_batches, lower_case_finds_batches, responses,
    search_matches_batch, signed_amount, transaction_type_to_string, type_names, zero_crossing,
    CreditTransaction, CreditTransactionCreateDBRequest, CreditTransactionType, GroupedRow, MatchStep, ZeroCrossing,
};
use dwctl::errors::DbError;
use dwctl::time::Timestamp;

fn amount(mantissa: i128, scale: u32) -> Amount {
    Amount::new(mantissa, scale).unwrap()
}

fn at(secs: i64) -> Timestamp {
    Timestamp { secs, nanos: 0 }
}

#[test]
fn transaction_types_have_names() {
    let name = |t: CreditTransactionType| transaction_type_to_string(&t);
    assert_eq!(name(CreditTransactionType::Purchase), "purchase");
    assert_eq!(name(CreditTransactionType::AdminGrant), "admin_grant");
    assert_eq!(name(CreditTransactionType::AdminRemoval), "admin_removal");
    assert_eq!(name(CreditTransactionType::Usage), "usage");
    assert_eq!(
        type_names(&Some(vec![CreditTransactionType::Usage, CreditTransactionType::Purchase])),
        Some(vec!["usage".to_string(), "purchase".to_string()])
    );
    assert_eq!(type_names(&None), None);
}

#[test]
fn charges_are_negative() {
    assert_eq!(signed_amount(CreditTransactionType::Usage, amount(150, 2)).text(), "-1.50");
    assert_eq!(signed_amount(CreditTransactionType::AdminRemoval, amount(1, 0)).text(), "-1");
    assert_eq!(signed_amount(CreditTransactionType::Purchase, amount(150, 2)).text(), "1.50");
    assert_eq!(signed_amount(CreditTransactionType::AdminGrant, amount(150, 2)).text(), "1.50");
}

#[test]
fn a_balance_crosses_zero_upward_and_downward() {
    assert_eq!(zero_crossing(amount(5, 0), amount(5, 0)), Some(ZeroCrossing::Upward));
    assert_eq!(zero_crossing(amount(5, 0), amount(10, 0)), Some(ZeroCrossing::Upward));
    assert_eq!(zero_crossing(amount(5, 0), amount(49, 1)), None);
    assert_eq!(zero_crossing(amount(0, 0), amount(-1, 0)), Some(ZeroCrossing::Downward));
    assert_eq!(zero_crossing(amount(-3, 0), amount(-4, 0)), Some(ZeroCrossing::Downward));
    assert_eq!(zero_crossing(amount(-3, 0), amount(-3, 0)), None);
    assert_eq!(zero_crossing(amount(-3, 0), amount(-2, 0)), None);
    assert_eq!(zero_crossing(amount(1, 0), amount(-2, 0)), None);
}

#[test]
fn crossings_are_announced_with_the_time() {
    assert_eq!(crossing_payload(1_700_000_000_000_001), "credits_transactions:1700000000000001");
    assert_eq!(crossing_payload(0), "credits_transactions:0");
}

#[test]
fn a_first_payment_is_matched_up_to_a_limit() {
    let step = begin_match(amount(5000, 2), amount(20, 0));
    let MatchStep::FindPurchase { match_amount } = step else { panic!("{step:?}") };
    assert_eq!(match_amount.text(), "20");
    let step = begin_match(amount(5000, 2), amount(80, 0));
    let MatchStep::FindPurchase { match_amount } = step else { panic!("{step:?}") };
    assert_eq!(match_amount.text(), "50.00");
    let step = after_purchase(match_amount, Some(42));
    let MatchStep::CheckFirst { match_amount, purchase_seq } = step else { panic!("{step:?}") };
    assert_eq!(purchase_seq, 42);
    let step = after_check(match_amount, 7, "cs_123", true);
    let MatchStep::Grant(request) = step else { panic!("{step:?}") };
    assert_eq!(request.user_id, 7);
    assert_eq!(request.transaction_type, CreditTransactionType::AdminGrant);
    assert_eq!(request.source_id, "cs_123:first-payment-match");
    assert_eq!(request.description.as_deref(), Some("First payment match bonus (matched 50.00)"));
    assert!(request.fusillade_batch_id.is_none() && request.api_key_id.is_none());
}

#[test]
fn nothing_is_matched_without_reason() {
    assert!(matches!(begin_match(amount(0, 0), amount(20, 0)), MatchStep::Done));
    assert!(matches!(begin_match(amount(-1, 0), amount(20, 0)), MatchStep::Done));
    assert!(matches!(begin_match(amount(50, 0), amount(0, 0)), MatchStep::Done));
    assert!(matches!(after_purchase(amount(1, 0), None), MatchStep::Done));
    assert!(matches!(after_check(amount(1, 0), 7, "cs", false), MatchStep::Done));
}

fn unique(constraint: Option<&str>) -> DbError {
    DbError::UniqueViolation {
        constraint: constraint.map(|c| c.to_string()),
        table: None,
        message: "m".to_string(),
        conflicting_value: None,
    }
}

#[test]
fn a_match_that_is_there_already_is_no_error() {
    assert!(after_grant(Ok(())).is_ok());
    assert!(after_grant(Err(unique(Some("credits_transactions_source_id_unique")))).is_ok());
    assert!(matches!(
        after_grant(Err(unique(Some("other")))),
        Err(DbError::UniqueViolation { .. })
    ));
    assert!(after_grant(Err(unique(None))).is_err());
    assert!(matches!(after_grant(Err(DbError::NotFound)), Err(DbError::NotFound)));
}

#[test]
fn a_missing_balance_is_zero() {
    assert_eq!(balance_or_zero(None).text(), "0");
    assert_eq!(balance_or_zero(Some(amount(12, 1))).text(), "1.2");
}

#[test]
fn batches_are_listed_with_usage() {
    assert!(include_batches(&None));
    assert!(include_batches(&Some(vec![CreditTransactionType::Purchase, CreditTransactionType::Usage])));
    assert!(!include_batches(&Some(vec![CreditTransactionType::Purchase])));
    assert!(!include_batches(&Some(vec![])));
}

#[test]
fn searches_find_batches_by_part_of_their_name() {
    let search = |s: &str| search_matches_batch(&Some(s.to_string()));
    assert!(search_matches_batch(&None));
    assert!(search("BAT"));
    assert!(search(""));
    assert!(search("my Batch run"));
    assert!(!search("bats"));
    assert!(lower_case_finds_batches("atch"));
    assert!(!lower_case_finds_batches("BAT"));
}

#[test]
fn a_page_is_fetched_from_the_start() {
    assert_eq!(grouped_fetch_limit(20, 10), 30);
}

fn grouped(id: Option<u128>) -> GroupedRow {
    GroupedRow {
        id,
        user_id: Some(2),
        transaction_type: CreditTransactionType::Usage,
        amount: Some(amount(5, 1)),
        source_id: Some("s".to_string()),
        description: None,
        created_at: Some(at(9)),
        batch_id: Some(3),
        batch_count: None,
        request_origin: Some("api".to_string()),
        batch_sla: None,
    }
}

#[test]
fn grouped_rows_are_whole_or_refused() {
    let items = grouped_items(vec![grouped(Some(1)), grouped(Some(4))]).unwrap();
    assert_eq!(items.len(), 2);
    assert_eq!(items[1].transaction.id, 4);
    assert_eq!(items[0].batch_count, 1);
    assert_eq!(items[0].batch_id, Some(3));
    assert_eq!(items[0].transaction.amount.text(), "0.5");
    let words = |row: GroupedRow| grouped_items(vec![grouped(Some(1)), row]).unwrap_err().message();
    let null = |column: &str| {
        format!("encountered unexpected or invalid data: Query returned NULL {column}")
    };
    assert_eq!(words(grouped(None)), null("id"));
    assert_eq!(words(GroupedRow { user_id: None, ..grouped(Some(1)) }), null("user_id"));
    assert_eq!(words(GroupedRow { amount: None, ..grouped(Some(1)) }), null("amount"));
    assert_eq!(words(GroupedRow { source_id: None, ..grouped(Some(1)) }), null("source_id"));
    assert_eq!(words(GroupedRow { created_at: None, ..grouped(Some(1)) }), null("created_at"));
}

#[test]
fn transactions_are_handed_out_in_order() {
    let tx = |id: u128| CreditTransaction {
        id,
        user_id: 1,
        transaction_type: CreditTransactionType::Purchase,
        amount: amount(1, 0),
        description: Some("d".to_string()),
        source_id: "s".to_string(),
        created_at: at(1),
        seq: 5,
        api_key_id: Some(8),
    };
    let list = responses(vec![tx(1), tx(2)]);
    assert_eq!(list.iter().map(|t| t.id).collect::<Vec<u128>>(), vec![1, 2]);
    assert_eq!(list[0].api_key_id, Some(8));
}

#[test]
fn a_crossing_compares_the_balances_before_and_after() {
    // Balances before in hundredths, changes in tenths, balances after in thousandths.
    for old in -30i128..=30 {
        for change in -5i128..=5 {
            let new = 10 * old + 100 * change;
            let expected = if old <= 0 && new > 0 {
                Some(ZeroCrossing::Upward)
            } else if old > 0 && new <= 0 {
                Some(ZeroCrossing::Downward)
            } else {
                None
            };
            assert_eq!(zero_crossing(amount(new, 3), amount(change, 1)), expected, "{old} {change}");
        }
    }
}

fn request_of(transaction_type: CreditTransactionType, a: Amount) -> CreditTransactionCreateDBRequest {
    CreditTransactionCreateDBRequest {
        user_id: 7,
        transaction_type,
        amount: a,
        source_id: "src".to_string(),
        description: None,
        fusillade_batch_id: None,
        api_key_id: None,
    }
}

fn row_of(transaction_type: CreditTransactionType, a: Amount) -> CreditTransaction {
    CreditTransaction {
        id: 1,
        user_id: 7,
        transaction_type,
        amount: a,
        description: None,
        source_id: "src".to_string(),
        created_at: at(0),
        seq: 3,
        api_key_id: None,
    }
}

#[test]
fn a_recorded_transaction_keeps_its_amount_and_tells_of_a_crossing() {
    let usage = CreditTransactionType::Usage;
    let (response, crossing) =
        after_recording(&request_of(usage, amount(25, 1)), Ok((row_of(usage, amount(25, 1)), amount(-5, 1))))
            .unwrap();
    assert_eq!(response.amount.text(), "2.5");
    assert_eq!((response.id, response.user_id), (1, 7));
    assert_eq!(crossing, Some(ZeroCrossing::Downward));
    let grant = CreditTransactionType::AdminGrant;
    let (_, crossing) =
        after_recording(&request_of(grant, amount(3, 0)), Ok((row_of(grant, amount(3, 0)), amount(3, 0))))
            .unwrap();
    assert_eq!(crossing, Some(ZeroCrossing::Upward));
    let (_, crossing) =
        after_recording(&request_of(grant, amount(3, 0)), Ok((row_of(grant, amount(3, 0)), amount(4, 0))))
            .unwrap();
    assert_eq!(crossing, None);
}

#[test]
fn a_transaction_that_was_not_recorded_is_an_error() {
    let request = request_of(CreditTransactionType::Purchase, amount(-1, 0));
    assert!(matches!(after_recording(&request, Err(DbError::NotFound)), Err(DbError::NotFound)));
}
