use dwctl::audit::{
    after_probe, audit_complete, audit_message, lists, AuditAction, AuditProbe, AuditSettings,
    FUSILLADE_APPLICATION_NAME, MAIN_APPLICATION_NAME, OUTLET_APPLICATION_NAME,
};
use dwctl::amount::Amount;
use dwctl::batch_templates::BatchTemplateReasoningRequest;
use dwctl::cache_tariffs::{enabled_terms, CacheTariffOverrides, CacheTariffTerms};
use dwctl::capacity_reservations::{reservation_columns, reserved_by_model, Reservation};
use dwctl::connections::{counter_query, entry_columns, key_columns, status_times, sync_outcome};
use dwctl::errors::DbError;
use dwctl::feature_flags::FeatureFlag;
use dwctl::file_storage::{
    after_setup_step, content_chunks, create_database_query, directory_failure,
    files_database_name, invalid_url, object_key, object_number, storage_path, storage_url,
    take_chunk, FileStorage, FileStorageRequest, LocalFileStorage, NoopFileStorage, SetupNext,
    SetupStep,
};
use dwctl::files::{
    file_list_query, file_responses, file_update_columns, files_by_id, updated_file, File,
    FileFilter, FileStatus, FileUpdateDBRequest,
};
use dwctl::provider_display_configs::{
    known_providers, provider_update_columns, KnownProviderRow, ProviderDisplayConfigUpdateDBRequest,
};
use dwctl::query::SqlPiece;
use dwctl::time::Timestamp;
use std::path::PathBuf;

fn at(secs: i64) -> Timestamp {
    Timestamp { secs, nanos: 0 }
}

#[test]
fn files_are_kept_below_two_digits_of_their_name() {
    assert_eq!(
        storage_path(0xabcd_0000_0000_4000_8000_0000_0000_0001),
        "ab/abcd0000-0000-4000-8000-000000000001.dat"
    );
    assert_ne!(storage_path(1), storage_path(2));
}

#[test]
fn a_local_storage_knows_its_directory() {
    let storage = LocalFileStorage::new(PathBuf::from("/var/files"));
    assert_eq!(storage.base_path(), &PathBuf::from("/var/files"));
}

#[test]
fn a_storage_that_keeps_nothing_says_so() {
    let words = "NoopFileStorage: file storage operations are not supported in this context";
    let storage = NoopFileStorage;
    let request = FileStorageRequest { content: vec![1], content_type: "t".to_string() };
    assert_eq!(storage.store(request).unwrap_err().message(), words);
    assert_eq!(storage.retrieve("k").unwrap_err().message(), words);
    assert_eq!(storage.delete("k").unwrap_err().message(), words);
    assert_eq!(storage.holds("k").unwrap_err().message(), words);
}

#[test]
fn chunks_make_up_the_content() {
    let content: Vec<u8> = (0..20_000u32).map(|i| (i % 251) as u8).collect();
    let chunks = content_chunks(&content);
    assert_eq!(chunks.iter().map(|c| c.len()).collect::<Vec<usize>>(), vec![8192, 8192, 3616]);
    let mut read: Vec<u8> = Vec::new();
    for chunk in &chunks {
        assert!(take_chunk(&mut read, chunk));
    }
    assert!(!take_chunk(&mut read, &Vec::new()));
    assert_eq!(read, content);
    assert!(content_chunks(&Vec::new()).is_empty());
    assert_eq!(content_chunks(&vec![b'x'; 1024 * 1024]).len(), 128);
    assert_eq!(content_chunks(&vec![0; 8192]).len(), 1);
}

#[test]
fn object_keys_read_back() {
    for oid in [0, 1, -1, 16_397, i32::MAX, i32::MIN] {
        assert_eq!(object_key(oid), oid.to_string());
        assert_eq!(object_number(&object_key(oid)).unwrap(), oid);
    }
    for key in ["+7", "007", "-0", "2147483647", "-2147483648", "0000000000000000000000012"] {
        assert_eq!(object_number(key).unwrap(), key.parse::<i32>().unwrap(), "{key}");
    }
    for key in ["", "+", "-", "1a", " 1", "2147483648", "-2147483649", "99999999999999999999", "--1", "\u{661}"] {
        assert!(key.parse::<i32>().is_err());
        assert_eq!(
            object_number(key).unwrap_err().message(),
            format!("Invalid postgres OID: {key}")
        );
    }
}

#[test]
fn files_have_a_database_of_their_own() {
    assert_eq!(files_database_name(Some("main")), "main_files");
    assert_eq!(files_database_name(None), "control_layer_files");
    assert_eq!(create_database_query("main_files"), "CREATE DATABASE \"main_files\"");
    assert_eq!(storage_url(Some("a"), "b"), "a");
    assert_eq!(storage_url(None, "b"), "b");
    assert_eq!(invalid_url("bad").message(), "Invalid database URL: bad");
    assert_eq!(
        directory_failure("\"/x\"", "denied").message(),
        "Failed to create local storage directory \"/x\": denied"
    );
}

#[test]
fn a_missing_files_database_is_made() {
    let next = |step: SetupStep, failure: Option<&str>| after_setup_step(step, failure, "m_files");
    assert!(matches!(next(SetupStep::Connect, None), SetupNext::Ready));
    let missing = Some("database \"m_files\" does not exist");
    assert!(matches!(
        next(SetupStep::Connect, missing),
        SetupNext::Step(SetupStep::ConnectToServer)
    ));
    assert!(matches!(next(SetupStep::ConnectToServer, None), SetupNext::Step(SetupStep::Create)));
    assert!(matches!(next(SetupStep::Create, None), SetupNext::Step(SetupStep::ConnectToNew)));
    assert!(matches!(next(SetupStep::ConnectToNew, None), SetupNext::Ready));
    let words = |step: SetupStep, failure: &str| match next(step, Some(failure)) {
        SetupNext::Failed(e) => e.message(),
        other => format!("{other:?}"),
    };
    assert_eq!(words(SetupStep::Connect, "no"), "Failed to connect to files database 'm_files': no");
    assert_eq!(
        words(SetupStep::ConnectToServer, "x does not exist"),
        "Failed to connect to postgres database to create files database: x does not exist"
    );
    assert_eq!(words(SetupStep::Create, "no"), "Failed to create files database 'm_files': no");
    assert_eq!(
        words(SetupStep::ConnectToNew, "no"),
        "Failed to connect to new files database 'm_files': no"
    );
}

fn stored_file(id: u128) -> File {
    File {
        id,
        filename: "f.jsonl".to_string(),
        size_bytes: 9,
        status: "processed".to_string(),
        error_message: None,
        expires_at: None,
        deleted_at: None,
        uploaded_by: 2,
        created_at: at(1),
        updated_at: at(2),
    }
}

#[test]
fn file_lists_are_narrowed_and_paged() {
    let filter = FileFilter::new(1, 2)
        .with_status(FileStatus { name: "deleted".to_string() })
        .with_uploaded_by(7);
    let shown: Vec<String> = file_list_query(&filter)
        .pieces
        .iter()
        .map(|p| match p {
            SqlPiece::Text(t) => t.to_string(),
            other => format!("{other:?}"),
        })
        .collect();
    assert_eq!(
        shown.concat(),
        "SELECT * FROM files WHERE 1=1 AND uploaded_by = Id(7) AND status = Value(\"deleted\") ORDER BY created_at DESC LIMIT Int(2) OFFSET Int(1)"
    );
    assert_eq!(file_list_query(&FileFilter::new(0, 1)).pieces.len(), 5);
}

#[test]
fn files_are_handed_out() {
    let list = file_responses(vec![stored_file(1), stored_file(2)]);
    assert_eq!(list[1].id, 2);
    assert_eq!(list[0].status.name, "processed");
    assert_eq!(files_by_id(vec![stored_file(1), stored_file(2), stored_file(1)]).len(), 2);
    assert_eq!(updated_file(Some(stored_file(3))).unwrap().id, 3);
    assert!(matches!(updated_file(None), Err(DbError::NotFound)));
}

#[test]
fn file_errors_are_left_cleared_or_set() {
    let request = |message: Option<Option<&str>>| FileUpdateDBRequest {
        filename: None,
        status: Some(FileStatus { name: "error".to_string() }),
        error_message: message.map(|m| m.map(|t| t.to_string())),
        deleted_at: Some(at(3)),
    };
    let r = request(Some(Some("bad")));
    let c = file_update_columns(&r);
    assert_eq!(c.error_message, (true, Some("bad")));
    assert_eq!(c.status, Some("error"));
    assert_eq!(c.filename, None);
    assert_eq!(c.deleted_at, Some(at(3)));
    assert_eq!(file_update_columns(&request(Some(None))).error_message, (true, None));
    assert_eq!(file_update_columns(&request(None)).error_message, (false, None));
}

#[test]
fn syncs_start_with_listing_and_end_with_a_final_status() {
    let now = at(5);
    assert_eq!(status_times("listing", now), (Some(now), None));
    for status in ["completed", "failed", "cancelled"] {
        assert_eq!(status_times(status, now), (None, Some(now)));
    }
    assert_eq!(status_times("ingesting", now), (None, None));
}

#[test]
fn only_counters_are_counted() {
    for field in ["files_found", "files_skipped", "files_ingested", "files_failed", "batches_created"] {
        assert_eq!(
            counter_query(field).unwrap(),
            format!("UPDATE sync_operations SET {field} = {field} + 1 WHERE id = $1 AND status != 'deleted'")
        );
    }
    assert_eq!(
        counter_query("status; --").unwrap_err().message(),
        "unknown counter field: status; --"
    );
}

#[test]
fn a_sync_ends_when_all_its_entries_are_done() {
    assert_eq!(sync_outcome(0, 0, 0), None);
    assert_eq!(sync_outcome(3, 2, 2), None);
    assert_eq!(sync_outcome(3, 3, 3), Some("failed"));
    assert_eq!(sync_outcome(3, 3, 2), Some("completed"));
    assert_eq!(sync_outcome(3, 3, 0), Some("completed"));
}

#[test]
fn entries_column_by_column() {
    let entries = vec![
        ("a".to_string(), Some(at(1)), None),
        ("b".to_string(), None, Some(7)),
    ];
    let columns = entry_columns(&entries);
    assert_eq!(columns.keys, vec!["a", "b"]);
    assert_eq!(columns.last_modified, vec![Some(at(1)), None]);
    assert_eq!(columns.sizes, vec![None, Some(7)]);
    let (keys, dates) = key_columns(&vec![("k".to_string(), None)]);
    assert_eq!(keys, vec!["k"]);
    assert_eq!(dates, vec![None]);
}

fn audited() -> AuditSettings {
    AuditSettings {
        extension_installed: true,
        shared_preload_libraries: Some("pg_stat_statements, pgaudit ,x".to_string()),
        pgaudit_log: Some(" ddl ".to_string()),
        log_connections: Some("on".to_string()),
        log_disconnections: Some("on".to_string()),
    }
}

#[test]
fn audit_settings_all_count() {
    assert!(audit_complete(&audited()));
    assert!(!audit_complete(&AuditSettings { extension_installed: false, ..audited() }));
    let text = |s: &str| Some(s.to_string());
    assert!(!audit_complete(&AuditSettings { shared_preload_libraries: None, ..audited() }));
    assert!(!audit_complete(&AuditSettings {
        shared_preload_libraries: text("pgaudit2"),
        ..audited()
    }));
    for log in ["", "  ", "none", " none "] {
        assert!(!audit_complete(&AuditSettings { pgaudit_log: text(log), ..audited() }));
    }
    assert!(!audit_complete(&AuditSettings { log_connections: text("off"), ..audited() }));
    assert!(!audit_complete(&AuditSettings { log_disconnections: None, ..audited() }));
    assert_eq!(audit_message(true), "PostgreSQL audit settings detected");
    assert_eq!(audit_message(false), "PostgreSQL audit settings are incomplete");
}

#[test]
fn entries_of_a_list_are_trimmed() {
    assert!(lists("pgaudit", "pgaudit"));
    assert!(lists(",, pgaudit", "pgaudit"));
    assert!(lists("a,", ""));
    assert!(lists("", ""));
    assert!(!lists("", "pgaudit"));
    assert!(!lists("pg audit,pgaudit.log", "pgaudit"));
}

#[test]
fn probes_are_asked_in_order() {
    let mut asked = vec![AuditProbe::DatabaseName];
    loop {
        let probe = asked[asked.len() - 1];
        assert!(probe.sql().starts_with("SELECT "));
        assert!(probe.failure_message().starts_with("Failed to "));
        match after_probe(probe, true, &audited()) {
            AuditAction::Ask(next) => asked.push(next),
            AuditAction::Report { complete } => {
                assert!(complete);
                break;
            }
            AuditAction::GiveUp { .. } => panic!("{probe:?}"),
        }
    }
    assert_eq!(asked.len(), 6);
    assert_eq!(asked[1].failure_message(), "Failed to check whether pgAudit is installed");
    assert_eq!(
        after_probe(AuditProbe::DatabaseName, false, &audited()),
        AuditAction::GiveUp { probe: AuditProbe::DatabaseName, database_known: false }
    );
    assert_eq!(
        after_probe(AuditProbe::AuditLog, false, &audited()),
        AuditAction::GiveUp { probe: AuditProbe::AuditLog, database_known: true }
    );
}

#[test]
fn pools_connect_under_their_names() {
    assert_eq!(MAIN_APPLICATION_NAME, "control-layer");
    assert_eq!(FUSILLADE_APPLICATION_NAME, "control-layer/fusillade");
    assert_eq!(OUTLET_APPLICATION_NAME, "control-layer/outlet");
}

#[test]
fn cache_tariffs_fall_back_to_the_defaults() {
    let amount = |m: i128| Amount::new(m, 2).unwrap();
    let defaults = CacheTariffTerms {
        write_multiplier_5m: amount(125),
        write_multiplier_1h: amount(200),
        write_multiplier_24h: amount(300),
        read_multiplier: amount(10),
        min_prefix_tokens: 1024,
    };
    let terms = enabled_terms(&defaults, CacheTariffOverrides::default());
    assert_eq!(terms.write_multiplier_5m.text(), "1.25");
    assert_eq!(terms.min_prefix_tokens, 1024);
    let terms = enabled_terms(
        &defaults,
        CacheTariffOverrides {
            read_multiplier: Some(amount(50)),
            min_prefix_tokens: Some(0),
            ..CacheTariffOverrides::default()
        },
    );
    assert_eq!(terms.read_multiplier.text(), "0.50");
    assert_eq!(terms.min_prefix_tokens, 0);
    assert_eq!(terms.write_multiplier_24h.text(), "3.00");
}

#[test]
fn reservations_are_summed_and_split() {
    assert_eq!(reserved_by_model(&vec![(1, Some(5)), (2, None)]), vec![(1, 5), (2, 0)]);
    let rows = vec![Reservation {
        model_id: 1,
        completion_window: "24h".to_string(),
        requests: 10,
        expires_at: at(9),
    }];
    let columns = reservation_columns(&rows);
    assert_eq!(columns.model_ids, vec![1]);
    assert_eq!(columns.windows, vec!["24h"]);
    assert_eq!(columns.counts, vec![10]);
    assert_eq!(columns.expires_ats, vec![at(9)]);
}

#[test]
fn providers_need_whole_rows() {
    let row = |key: Option<&str>, name: Option<&str>, count: Option<i64>| KnownProviderRow {
        provider_key: key.map(|k| k.to_string()),
        display_name: name.map(|n| n.to_string()),
        model_count: count,
    };
    let list = known_providers(vec![
        row(Some("a"), Some("A"), Some(2)),
        row(None, Some("B"), Some(2)),
        row(Some("c"), None, Some(2)),
        row(Some("d"), Some("D"), None),
    ]);
    assert_eq!(list.len(), 1);
    assert_eq!((list[0].provider_key.as_str(), list[0].model_count), ("a", 2));
    let request = ProviderDisplayConfigUpdateDBRequest { display_name: None, icon: Some(None) };
    assert_eq!(provider_update_columns(&request), (None, true, None));
    let request = ProviderDisplayConfigUpdateDBRequest {
        display_name: Some("n".to_string()),
        icon: Some(Some("i".to_string())),
    };
    assert_eq!(provider_update_columns(&request), (Some("n"), true, Some("i")));
}

#[test]
fn features_have_names() {
    assert_eq!(FeatureFlag::AllowNegativeBalance.as_str(), "ALLOW_NEGATIVE_BALANCE");
}

#[test]
fn stored_requests_are_carried() {
    let request = BatchTemplateReasoningRequest {
        custom_id: None,
        path: "/v1/chat/completions".to_string(),
        body: "{}".to_string(),
        model: "m".to_string(),
        line_number: 3,
    };
    assert_eq!(request.line_number, 3);
}
