use dwctl::errors::{
    counter_of, extract_conflicting_alias, found, DbError, FailureCounter, ServerError, StoreFailure,
};

fn server() -> ServerError {
    ServerError {
        code: Some("23505".to_string()),
        message: "duplicate key value".to_string(),
        constraint: Some("deployed_models_alias_unique".to_string()),
        table: Some("deployed_models".to_string()),
        detail: Some("Key (alias)=(my-model) already exists.".to_string()),
        is_unique_violation: false,
        is_foreign_key_violation: false,
        is_check_violation: false,
        description: "error returned from database: duplicate key value".to_string(),
    }
}

#[test]
fn missing_rows_are_not_found() {
    assert!(matches!(DbError::of_failure(StoreFailure::RowNotFound), DbError::NotFound));
    assert!(matches!(found::<u8>(None), Err(DbError::NotFound)));
    assert_eq!(found(Some(3)).unwrap(), 3);
}

#[test]
fn an_exhausted_pool_is_told_apart() {
    assert!(matches!(DbError::of_failure(StoreFailure::PoolTimedOut), DbError::PoolExhausted));
    assert_eq!(
        counter_of(&StoreFailure::PoolTimedOut).map(|c| c.name()),
        Some("dwctl_db_pool_acquire_timeouts_total")
    );
}

#[test]
fn alias_conflicts_name_the_alias() {
    let e = DbError::of_failure(StoreFailure::Server(ServerError {
        is_unique_violation: true,
        ..server()
    }));
    let DbError::UniqueViolation { conflicting_value, table, message, .. } = e else {
        panic!("{e:?}")
    };
    assert_eq!(conflicting_value.as_deref(), Some("my-model"));
    assert_eq!(table.as_deref(), Some("deployed_models"));
    assert_eq!(message, "duplicate key value");
}

#[test]
fn other_conflicts_name_nothing() {
    let detail = "Key (alias)=(my-model) already exists.";
    let constraint = Some("deployed_models_alias_unique");
    assert_eq!(extract_conflicting_alias(detail, constraint).as_deref(), Some("my-model"));
    assert_eq!(extract_conflicting_alias(detail, Some("users_email_key")), None);
    assert_eq!(extract_conflicting_alias(detail, None), None);
    assert_eq!(extract_conflicting_alias("no value here", constraint), None);
    assert_eq!(extract_conflicting_alias("Key (alias)=(open", constraint), None);
    assert_eq!(extract_conflicting_alias("a)b=(c)", constraint).as_deref(), Some("c"));
    assert_eq!(extract_conflicting_alias("x=()", constraint).as_deref(), Some(""));
}

#[test]
fn constraint_violations_are_told_apart() {
    let foreign = DbError::of_failure(StoreFailure::Server(ServerError {
        is_foreign_key_violation: true,
        ..server()
    }));
    assert!(matches!(foreign, DbError::ForeignKeyViolation { .. }));
    assert_eq!(foreign.message(), "Foreign key constraint violation");
    let check = DbError::of_failure(StoreFailure::Server(ServerError {
        is_check_violation: true,
        ..server()
    }));
    assert!(matches!(check, DbError::CheckViolation { .. }));
    assert_eq!(check.message(), "Check constraint violation");
    let other = DbError::of_failure(StoreFailure::Server(server()));
    assert_eq!(other.message(), "error returned from database: duplicate key value");
    let io = DbError::of_failure(StoreFailure::Other("closed".to_string()));
    assert_eq!(io.message(), "closed");
}

#[test]
fn stale_plans_are_counted() {
    let stale = |code: &str, message: &str| {
        counter_of(&StoreFailure::Server(ServerError {
            code: Some(code.to_string()),
            message: message.to_string(),
            ..server()
        }))
    };
    assert_eq!(
        stale("0A000", "cached plan must not change result type"),
        Some(FailureCounter::CachedPlanErrors)
    );
    assert_eq!(FailureCounter::CachedPlanErrors.name(), "dwctl_db_cached_plan_errors_total");
    assert_eq!(stale("0A000", "not supported"), None);
    assert_eq!(stale("23505", "cached plan must not change result type"), None);
    assert_eq!(counter_of(&StoreFailure::RowNotFound), None);
}

#[test]
fn errors_have_words() {
    assert_eq!(DbError::NotFound.message(), "Entity not found");
    assert_eq!(DbError::PoolExhausted.message(), "Database connection pool exhausted");
    assert_eq!(
        DbError::InvalidModelField { field: "alias" }.message(),
        "Invalid model field: alias must not be empty or whitespace"
    );
    assert_eq!(
        DbError::ProtectedEntity {
            operation: "Delete".to_string(),
            reason: "system user".to_string(),
            entity_type: "user".to_string(),
            entity_id: None,
        }
        .message(),
        "Delete cannot be applied to entity of type user: system user"
    );
    let unique = DbError::of_failure(StoreFailure::Server(ServerError {
        is_unique_violation: true,
        ..server()
    }));
    assert_eq!(unique.message(), "Unique constraint violation");
}
