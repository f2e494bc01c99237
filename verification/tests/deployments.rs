use dwctl::amount::Amount;
use dwctl::deployments::{
    checked_alias, checked_names, checked_new_names, component_responses, components_by_composite,
    count_query, create_columns, deployments_by_id, fallback_statuses, list_query,
    model_type_on_read, model_type_on_write, model_type_to_string, parse_model_type,
    read_deployment, read_deployments, throughputs, update_columns, written_deployment,
    DeployedModel, DeploymentAccessInfo, DeploymentComponentRow, DeploymentCreateDBRequest,
    DeploymentFilter, DeploymentUpdateDBRequest, LoadBalancingStrategy, ModelStatus, ModelType,
    PricingUpdateParams, ProviderPricingFields,
};
use dwctl::errors::DbError;
use dwctl::query::{SqlPiece, SqlQuery};
use dwctl::time::Timestamp;

fn at(secs: i64) -> Timestamp {
    Timestamp { secs, nanos: 0 }
}

fn show(query: &SqlQuery) -> String {
    let mut out = String::new();
    for piece in &query.pieces {
        match piece {
            SqlPiece::Text(t) => out.push_str(t),
            SqlPiece::Id(id) => out.push_str(&format!("<{id}>")),
            SqlPiece::Ids(ids) => out.push_str(&format!("<{ids:?}>")),
            SqlPiece::Value(v) => out.push_str(&format!("<{v}>")),
            SqlPiece::Values(vs) => out.push_str(&format!("<{vs:?}>")),
            SqlPiece::Bool(b) => out.push_str(&format!("<{b}>")),
            SqlPiece::Int(n) => out.push_str(&format!("<{n}>")),
        }
    }
    out
}

const HEAD: &str = "SELECT dm.* FROM deployed_models dm LEFT JOIN inference_endpoints ie ON dm.hosted_on = ie.id WHERE 1=1";

#[test]
fn model_types_have_names() {
    for t in [ModelType::Chat, ModelType::Embeddings, ModelType::Reranker] {
        assert_eq!(parse_model_type(model_type_to_string(&t)), Some(t));
    }
    assert_eq!(model_type_to_string(&ModelType::Chat), "CHAT");
    assert_eq!(parse_model_type("chat"), None);
    let name = |s: &str| Some(s.to_string());
    assert_eq!(model_type_on_read(&name("EMBEDDINGS")), Some(ModelType::Embeddings));
    assert_eq!(model_type_on_read(&name("RERANKER")), None);
    assert_eq!(model_type_on_write(&name("RERANKER")), Some(ModelType::Reranker));
    assert_eq!(model_type_on_read(&None), None);
    assert_eq!(model_type_on_write(&None), None);
}

#[test]
fn strategies_default_to_weights() {
    let parse = |s: Option<&str>| LoadBalancingStrategy::parse_or_default(&s.map(|n| n.to_string()));
    assert_eq!(parse(Some("priority")), LoadBalancingStrategy::Priority);
    assert_eq!(parse(Some("weighted_random")), LoadBalancingStrategy::WeightedRandom);
    assert_eq!(parse(Some("other")), LoadBalancingStrategy::WeightedRandom);
    assert_eq!(parse(None), LoadBalancingStrategy::WeightedRandom);
    assert_eq!(LoadBalancingStrategy::Priority.as_str(), "priority");
    assert_eq!(LoadBalancingStrategy::WeightedRandom.as_str(), "weighted_random");
}

#[test]
fn a_new_filter_lists_everything() {
    let filter = DeploymentFilter::new(5, 10);
    assert_eq!(
        show(&list_query(&filter)),
        format!("{HEAD} ORDER BY created_at DESC LIMIT <10> OFFSET <5>")
    );
    assert_eq!(
        show(&count_query(&filter)),
        "SELECT COUNT(*) FROM deployed_models dm LEFT JOIN inference_endpoints ie ON dm.hosted_on = ie.id WHERE 1=1"
    );
}

#[test]
fn filters_narrow_one_by_one() {
    let list = |f: DeploymentFilter| {
        show(&count_query(&f)).rsplit_once("WHERE 1=1").unwrap().1.to_string()
    };
    let new = || DeploymentFilter::new(0, 1);
    assert_eq!(list(new().with_endpoint(7)), " AND dm.hosted_on = <7>");
    assert_eq!(list(new().with_deleted(false)), " AND dm.deleted = <false>");
    assert_eq!(list(new().with_composite(true)), " AND dm.is_composite = <true>");
    let status = ModelStatus { name: "active".to_string() };
    assert_eq!(list(new().with_statuses(vec![status])), " AND dm.status = ANY(<[\"active\"]>)");
    assert_eq!(
        list(new().with_aliases(vec!["a".to_string()])),
        " AND dm.alias = ANY(<[\"a\"]>)"
    );
    assert_eq!(list(new().with_aliases(vec![])), "");
    assert_eq!(list(new().with_groups(vec![])), "");
    assert_eq!(
        list(new().with_groups(vec![1, 2])),
        " AND dm.id IN (SELECT dg.deployment_id FROM deployment_groups dg WHERE dg.group_id = ANY(<[1, 2]>))"
    );
    assert_eq!(
        list(new().with_search("GpT".to_string())),
        " AND (LOWER(dm.alias) LIKE <%gpt%> OR LOWER(dm.model_name) LIKE <%gpt%> OR LOWER(ie.name) LIKE <%gpt%>)"
    );
    assert_eq!(
        list(new().with_accessible_to(9)),
        " AND dm.id IN (SELECT dg.deployment_id FROM deployment_groups dg WHERE dg.group_id IN (SELECT ug.group_id FROM user_groups ug WHERE ug.user_id = <9> UNION SELECT '00000000-0000-0000-0000-000000000000'::uuid WHERE <9> != '00000000-0000-0000-0000-000000000000'::uuid))"
    );
}

#[test]
fn clauses_stand_in_a_fixed_order() {
    let filter = DeploymentFilter::new(0, 1)
        .with_composite(false)
        .with_search("x".to_string())
        .with_endpoint(7)
        .with_deleted(true);
    assert_eq!(
        show(&list_query(&filter)),
        format!(
            "{HEAD} AND dm.hosted_on = <7> AND dm.deleted = <true> AND (LOWER(dm.alias) LIKE <%x%> OR LOWER(dm.model_name) LIKE <%x%> OR LOWER(ie.name) LIKE <%x%>) AND dm.is_composite = <false> ORDER BY created_at DESC LIMIT <1> OFFSET <0>"
        )
    );
}

fn stored(id: u128, model_type: Option<&str>) -> DeployedModel<f32> {
    DeployedModel {
        id,
        model_name: "gpt".to_string(),
        alias: format!("alias-{id}"),
        description: None,
        model_type: model_type.map(|t| t.to_string()),
        capabilities: None,
        created_by: 1,
        hosted_on: None,
        status: "active".to_string(),
        last_sync: None,
        deleted: false,
        created_at: at(1),
        updated_at: at(2),
        requests_per_second: Some(1.5),
        burst_size: None,
        capacity: None,
        batch_capacity: None,
        throughput: None,
        downstream_pricing: ProviderPricingFields {
            mode: None,
            input_price_per_token: None,
            output_price_per_token: None,
            hourly_rate: None,
            input_token_cost_ratio: None,
        },
        is_composite: false,
        lb_strategy: None,
        fallback_enabled: None,
        fallback_on_rate_limit: Some(false),
        fallback_on_status: None,
        fallback_with_replacement: None,
        fallback_max_attempts: None,
        sanitize_responses: true,
        trusted: false,
        open_responses_adapter: None,
    }
}

#[test]
fn stored_models_are_handed_out_with_defaults() {
    let r = read_deployment(stored(1, Some("CHAT")));
    assert_eq!(r.model_type, Some(ModelType::Chat));
    assert!(r.fallback_enabled);
    assert!(!r.fallback_on_rate_limit);
    assert_eq!(r.fallback_on_status, vec![429, 500, 502, 503, 504]);
    assert!(!r.fallback_with_replacement);
    assert!(r.open_responses_adapter);
    assert_eq!(r.lb_strategy, LoadBalancingStrategy::WeightedRandom);
    assert_eq!(r.status.name, "active");
    assert_eq!(r.requests_per_second, Some(1.5));
    assert_eq!(read_deployment(stored(1, Some("RERANKER"))).model_type, None);
    assert_eq!(written_deployment(stored(1, Some("RERANKER"))).model_type, Some(ModelType::Reranker));
    assert_eq!(fallback_statuses(Some(vec![418])), vec![418]);
}

#[test]
fn models_are_found_by_identifier() {
    let list = read_deployments(vec![stored(2, None), stored(1, None)]);
    assert_eq!(list.iter().map(|d| d.id).collect::<Vec<u128>>(), vec![2, 1]);
    let map = deployments_by_id(vec![stored(2, None), stored(1, Some("CHAT"))]);
    assert_eq!(map.len(), 2);
    assert_eq!(map[&1].alias, "alias-1");
}

#[test]
fn blank_names_are_refused() {
    let field = |r: Result<(String, String), DbError>| match r {
        Err(DbError::InvalidModelField { field }) => field,
        _ => "",
    };
    assert_eq!(checked_names(" gpt\t", " a ").unwrap(), ("gpt".to_string(), "a".to_string()));
    assert_eq!(field(checked_names(" ", "")), "model_name");
    assert_eq!(field(checked_names("m", "\u{a0}\u{2003}")), "alias");
    assert_eq!(checked_alias(" x ").unwrap(), "x");
    assert!(matches!(checked_alias("  "), Err(DbError::InvalidModelField { field: "alias" })));
    let text = |s: &str| Some(s.to_string());
    assert_eq!(checked_new_names(&None, &text(" a ")).unwrap(), (None, text("a")));
    assert!(matches!(
        checked_new_names(&text(" "), &text("a")),
        Err(DbError::InvalidModelField { field: "model_name" })
    ));
    assert!(matches!(
        checked_new_names(&None, &text("")),
        Err(DbError::InvalidModelField { field: "alias" })
    ));
}

fn create(model_name: &str, alias: &str) -> DeploymentCreateDBRequest<f32> {
    DeploymentCreateDBRequest {
        created_by: 1,
        model_name: model_name.to_string(),
        alias: alias.to_string(),
        description: None,
        model_type: Some(ModelType::Reranker),
        capabilities: None,
        hosted_on: None,
        requests_per_second: None,
        burst_size: None,
        capacity: None,
        batch_capacity: None,
        throughput: None,
        provider_pricing: None,
        is_composite: true,
        lb_strategy: Some(LoadBalancingStrategy::Priority),
        fallback_enabled: None,
        fallback_on_rate_limit: None,
        fallback_on_status: None,
        fallback_with_replacement: None,
        fallback_max_attempts: None,
        sanitize_responses: true,
        trusted: false,
        open_responses_adapter: false,
    }
}

#[test]
fn new_models_are_stored_by_name() {
    let c = create_columns(&create(" gpt ", "a")).unwrap();
    assert_eq!(c.model_name, "gpt");
    assert_eq!(c.model_type, Some("RERANKER"));
    assert_eq!(c.lb_strategy, Some("priority"));
    assert_eq!(c.open_responses_adapter, Some(false));
    assert!(create_columns(&create("", "a")).is_err());
}

#[test]
fn updates_leave_clear_or_set() {
    let request = DeploymentUpdateDBRequest::<f32> {
        model_name: None,
        alias: Some(" new ".to_string()),
        description: Some(None),
        model_type: Some(Some(ModelType::Chat)),
        capabilities: None,
        status: Some(ModelStatus { name: "inactive".to_string() }),
        last_sync: Some(Some(at(4))),
        deleted: None,
        requests_per_second: Some(Some(2.5)),
        burst_size: None,
        capacity: Some(None),
        batch_capacity: None,
        throughput: None,
        provider_pricing: Some(PricingUpdateParams {
            should_update_mode: true,
            mode: Some("hourly".to_string()),
            should_update_input: true,
            input: None,
            should_update_output: false,
            output: None,
            should_update_hourly: true,
            hourly: Amount::new(25, 1),
            should_update_ratio: false,
            ratio: None,
        }),
        lb_strategy: None,
        fallback_enabled: None,
        fallback_on_rate_limit: None,
        fallback_on_status: None,
        fallback_with_replacement: None,
        fallback_max_attempts: Some(Some(3)),
        sanitize_responses: None,
        trusted: None,
        open_responses_adapter: None,
    };
    let c = update_columns(&request).unwrap();
    assert_eq!(c.model_name, None);
    assert_eq!(c.alias.as_deref(), Some("new"));
    assert_eq!(c.description, (true, None));
    assert_eq!(c.model_type, (true, Some("CHAT")));
    assert_eq!(c.capabilities, (false, None));
    assert_eq!(c.status, Some("inactive"));
    assert_eq!(c.last_sync, (true, Some(at(4))));
    assert_eq!(c.requests_per_second, (true, Some(2.5)));
    assert_eq!(c.burst_size, (false, None));
    assert_eq!(c.capacity, (true, None));
    assert_eq!(c.fallback_max_attempts, (true, Some(3)));
    assert_eq!(c.pricing_mode, (true, Some("hourly")));
    assert!(c.pricing_input.0 && c.pricing_input.1.is_none());
    assert_eq!(c.pricing_hourly.1.unwrap().text(), "2.5");
    assert_eq!(c.lb_strategy, None);
    let blank = DeploymentUpdateDBRequest { alias: Some(" ".to_string()), ..request };
    assert!(matches!(update_columns(&blank), Err(DbError::InvalidModelField { field: "alias" })));
}

fn component(id: u128, composite: u128) -> DeploymentComponentRow {
    DeploymentComponentRow {
        id,
        composite_model_id: composite,
        deployed_model_id: 5,
        weight: 1,
        enabled: true,
        sort_order: 0,
        created_at: at(0),
        model_alias: "a".to_string(),
        model_name: "n".to_string(),
        model_description: None,
        model_type: None,
        endpoint_id: None,
        endpoint_name: None,
        model_trusted: false,
        model_open_responses_adapter: None,
    }
}

#[test]
fn components_are_grouped_by_model() {
    let list = component_responses(vec![component(1, 10)]);
    assert!(list[0].model_open_responses_adapter);
    let map = components_by_composite(vec![component(1, 10), component(2, 20), component(3, 10)]);
    assert_eq!(map.len(), 2);
    assert_eq!(map[&10].iter().map(|c| c.id).collect::<Vec<u128>>(), vec![1, 3]);
    assert_eq!(map[&20].len(), 1);
}

#[test]
fn configured_throughputs_only() {
    let rows = vec![("a".to_string(), Some(1.5f32)), ("b".to_string(), None)];
    assert_eq!(throughputs(&rows), vec![("a".to_string(), 1.5)]);
}

#[test]
fn access_names_the_deployment() {
    let info = DeploymentAccessInfo {
        deployment_id: 1,
        deployment_alias: "a".to_string(),
        system_api_key: "k".to_string(),
    };
    assert_eq!(info.clone().deployment_alias, "a");
}
