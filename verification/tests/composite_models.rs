use dwctl::composite_models::{
    check_new_weight, check_weight, check_weights, composite_components_by_model,
    composite_count_query, composite_create_columns, composite_list_query, composite_response,
    composite_responses, composite_update_columns, composites_by_id, CompositeModel,
    CompositeModelComponentDBResponse, CompositeModelFilter, CompositeModelUpdateDBRequest,
};
use dwctl::deployments::{LoadBalancingStrategy, ModelType};
use dwctl::errors::DbError;
use dwctl::query::{SqlPiece, SqlQuery};
use dwctl::time::Timestamp;

fn at(secs: i64) -> Timestamp {
    Timestamp { secs, nanos: 0 }
}

fn texts(query: &SqlQuery) -> String {
    let mut out = String::new();
    for piece in &query.pieces {
        match piece {
            SqlPiece::Text(t) => out.push_str(t),
            SqlPiece::Value(v) => out.push_str(&format!("<{v}>")),
            other => out.push_str(&format!("<{other:?}>")),
        }
    }
    out
}

#[test]
fn composite_lists_are_narrowed_and_paged() {
    let filter = CompositeModelFilter::new(2, 3).with_search("Big".to_string());
    assert_eq!(
        texts(&composite_list_query(&filter)),
        "SELECT * FROM composite_models WHERE 1=1 AND (LOWER(alias) LIKE <%big%> OR LOWER(COALESCE(description, '')) LIKE <%big%>) ORDER BY created_at DESC LIMIT <Int(3)> OFFSET <Int(2)>"
    );
    let filter = CompositeModelFilter::new(0, 1).with_accessible_to(4);
    assert_eq!(
        texts(&composite_count_query(&filter)),
        "SELECT COUNT(*) FROM composite_models WHERE 1=1 AND id IN (SELECT cmg.composite_model_id FROM composite_model_groups cmg WHERE cmg.group_id IN (SELECT ug.group_id FROM user_groups ug WHERE ug.user_id = <Id(4)> UNION SELECT '00000000-0000-0000-0000-000000000000'::uuid WHERE <Id(4)> != '00000000-0000-0000-0000-000000000000'::uuid))"
    );
}

fn stored(id: u128) -> CompositeModel<f32> {
    CompositeModel {
        id,
        alias: "c".to_string(),
        description: None,
        model_type: Some("RERANKER".to_string()),
        requests_per_second: None,
        burst_size: None,
        capacity: Some(100),
        batch_capacity: None,
        lb_strategy: Some("priority".to_string()),
        fallback_enabled: Some(false),
        fallback_on_rate_limit: None,
        fallback_on_status: Some(vec![503]),
        created_by: 1,
        created_at: at(1),
        updated_at: at(1),
    }
}

#[test]
fn composites_are_handed_out() {
    let r = composite_response(stored(1));
    assert_eq!(r.model_type, Some(ModelType::Reranker));
    assert_eq!(r.lb_strategy, LoadBalancingStrategy::Priority);
    assert!(!r.fallback_enabled);
    assert!(r.fallback_on_rate_limit);
    assert_eq!(r.fallback_on_status, vec![503]);
    assert_eq!(composite_responses(vec![stored(1), stored(2)])[1].id, 2);
    assert_eq!(composites_by_id(vec![stored(1), stored(2)]).len(), 2);
}

#[test]
fn composite_aliases_are_trimmed() {
    let (alias, model_type, strategy) =
        composite_create_columns(" c ", Some(ModelType::Chat), None).unwrap();
    assert_eq!((alias.as_str(), model_type, strategy), ("c", Some("CHAT"), None));
    assert!(matches!(
        composite_create_columns(" ", None, None),
        Err(DbError::InvalidModelField { field: "alias" })
    ));
}

#[test]
fn composite_updates_leave_clear_or_set() {
    let request = CompositeModelUpdateDBRequest::<f32> {
        alias: Some(" d ".to_string()),
        description: Some(Some("x".to_string())),
        model_type: Some(None),
        requests_per_second: None,
        burst_size: Some(Some(4)),
        capacity: None,
        batch_capacity: Some(None),
        lb_strategy: Some(LoadBalancingStrategy::WeightedRandom),
        fallback_enabled: None,
        fallback_on_rate_limit: None,
        fallback_on_status: None,
    };
    let c = composite_update_columns(&request).unwrap();
    assert_eq!(c.alias.as_deref(), Some("d"));
    assert_eq!(c.description, (true, Some("x")));
    assert_eq!(c.model_type, (true, None));
    assert_eq!(c.requests_per_second, (false, None));
    assert_eq!(c.burst_size, (true, Some(4)));
    assert_eq!(c.batch_capacity, (true, None));
    assert_eq!(c.lb_strategy, Some("weighted_random"));
    let blank = CompositeModelUpdateDBRequest { alias: Some("".to_string()), ..request };
    assert!(composite_update_columns(&blank).is_err());
}

#[test]
fn weights_run_from_one_to_a_hundred() {
    assert!(check_weight(1).is_ok());
    assert!(check_weight(100).is_ok());
    assert!(matches!(check_weight(0), Err(DbError::InvalidModelField { field: "weight" })));
    assert!(check_weight(101).is_err());
    assert!(check_new_weight(None).is_ok());
    assert!(check_new_weight(Some(-1)).is_err());
    assert!(check_weights(&vec![]).is_ok());
    assert!(check_weights(&vec![(1, 60, true), (2, 40, false)]).is_ok());
    assert!(check_weights(&vec![(1, 60, true), (2, 0, true)]).is_err());
}

#[test]
fn composite_components_by_their_model() {
    let row = |id: u128, model: u128| CompositeModelComponentDBResponse {
        id,
        composite_model_id: model,
        deployed_model_id: 7,
        weight: 50,
        enabled: true,
        created_at: at(0),
    };
    let map = composite_components_by_model(vec![row(1, 8), row(2, 9), row(3, 8)]);
    assert_eq!(map[&8].iter().map(|c| c.id).collect::<Vec<u128>>(), vec![1, 3]);
    assert_eq!(map[&9].len(), 1);
    assert!(!map.contains_key(&7));
}
