use dwctl::amount::Amount;
use dwctl::model_provisioning::{
    check_existing_type, close_tariff_query, endpoint_names, expected_model_types,
    future_cache_error, future_tariff_error, group_grants, group_names, merge_targets,
    model_upsert, names_query, pricing_fields, provisioning_steps, redirect_targets,
    resolve_model_aliases, resolve_names, stale_components, traffic_rule_rows, Backoff, Catalog,
    CatalogModel, CatalogPricing, ClayModel, Component, ComponentRow, DesiredModel, Fallback,
    PhysicalDeployment, Pool, ProvisioningStep, Routing, TrafficRule, MODEL_PROVISIONING_LOCK,
};
use dwctl::names::NameIds;
use dwctl::tariff_plan::{
    plan_cache_tariff, plan_tariffs, CacheTariffRow, DesiredCacheTariff, DesiredTariff,
    TariffChange, TariffRow,
};
use dwctl::time::Timestamp;

fn amount(mantissa: i128, scale: u32) -> Amount {
    Amount::new(mantissa, scale).unwrap()
}

fn physical(alias: &str, endpoint: &str) -> PhysicalDeployment<u8> {
    PhysicalDeployment {
        alias: alias.to_string(),
        model_name: format!("{alias}-name"),
        endpoint: endpoint.to_string(),
        display_name: None,
        description: None,
        model_type: Some("CHAT".to_string()),
        capabilities: None,
        settings: 1,
        provider_pricing: Some(CatalogPricing::PerToken {
            input_per_token: Some(amount(1, 6)),
            output_per_token: None,
        }),
    }
}

fn model(alias: &str, deployments: Vec<PhysicalDeployment<u8>>) -> CatalogModel<u8, f64, u8> {
    CatalogModel {
        source: format!("{alias}.yaml"),
        canonical_model: format!("{alias}-canonical"),
        clay: ClayModel {
            alias: alias.to_string(),
            model_name: None,
            display_name: Some("Shown".to_string()),
            description: None,
            model_type: None,
            capabilities: Some(vec!["vision".to_string()]),
            settings: 9,
            deployments,
            routing: Routing {
                strategy: "priority".to_string(),
                fallback: Fallback {
                    enabled: true,
                    on_rate_limit: true,
                    on_status: vec![500, 503],
                    with_replacement: false,
                    max_attempts: Some(3),
                    backoff: None,
                    max_total_backoff_ms: Some(9000),
                },
                pools: vec![Pool {
                    name: "primary".to_string(),
                    components: vec![Component {
                        deployment: "p1".to_string(),
                        weight: 1,
                        enabled: true,
                        sort_order: 0,
                        strip_leading_bos: false,
                        render_kwargs: 0,
                    }],
                }],
            },
            tariffs: vec![],
            cache_tariff: None,
            access_groups: vec!["everyone".to_string(), "staff".to_string()],
            traffic_rules: vec![
                TrafficRule::Redirect { purpose: "batch".to_string(), target: "other".to_string() },
                TrafficRule::Deny { purpose: "playground".to_string() },
            ],
        },
    }
}

fn catalog() -> Catalog<u8, f64, u8> {
    Catalog {
        models: vec![
            model("v1", vec![physical("p1", "e1"), physical("p2", "e2")]),
            model("v2", vec![physical("p3", "e1")]),
        ],
    }
}

fn names(list: &[&str]) -> Vec<String> {
    list.iter().map(|s| s.to_string()).collect()
}

#[test]
fn physical_models_come_first() {
    assert_eq!(
        provisioning_steps(&catalog()),
        vec![
            ProvisioningStep::Physical { model: 0, deployment: 0 },
            ProvisioningStep::Physical { model: 0, deployment: 1 },
            ProvisioningStep::Physical { model: 1, deployment: 0 },
            ProvisioningStep::Virtual { model: 0 },
            ProvisioningStep::Virtual { model: 1 },
        ]
    );
    assert_eq!(MODEL_PROVISIONING_LOCK, 0x44574d4f44454c50);
}

#[test]
fn a_catalog_names_each_thing_once() {
    assert_eq!(endpoint_names(&catalog()), names(&["e1", "e2"]));
    assert_eq!(group_names(&catalog()), names(&["everyone", "staff"]));
    assert_eq!(redirect_targets(&catalog()), names(&["other"]));
}

#[test]
fn existing_aliases_keep_their_kind() {
    let expected = expected_model_types(&catalog());
    assert_eq!(
        expected,
        vec![
            ("v1".to_string(), true),
            ("p1".to_string(), false),
            ("p2".to_string(), false),
            ("v2".to_string(), true),
            ("p3".to_string(), false),
        ]
    );
    assert!(check_existing_type(&expected, "v1", true).is_ok());
    assert!(check_existing_type(&expected, "p3", false).is_ok());
    assert_eq!(
        check_existing_type(&expected, "v1", false).unwrap_err(),
        "model alias \"v1\" already exists as a physical model"
    );
    assert_eq!(
        check_existing_type(&expected, "p1", true).unwrap_err(),
        "model alias \"p1\" already exists as a virtual model"
    );
}

#[test]
fn physical_models_do_not_route() {
    let catalog = catalog();
    let m = &catalog.models[0];
    let row = model_upsert(&DesiredModel {
        source: &m.source,
        canonical_model: &m.canonical_model,
        clay: &m.clay,
        physical: Some(&m.clay.deployments[0]),
    });
    assert_eq!((row.alias, row.model_name), ("p1", "p1-name"));
    assert!(!row.is_composite && !row.fallback_enabled && !row.backoff_enabled);
    assert!(row.fallback_on_status.is_empty());
    assert_eq!(row.fallback_max_attempts, None);
    assert_eq!(row.pricing.mode, Some("per_token"));
    assert_eq!(row.pricing.input.unwrap().text(), "0.000001");
    assert_eq!(row.provisioning_source, "model-catalog:v1.yaml");
    assert_eq!(*row.settings, 1);
}

#[test]
fn virtual_models_route() {
    let mut catalog = catalog();
    let desired = |m| model_upsert(&m).backoff_initial_ms;
    {
        let m = &catalog.models[0];
        let row = model_upsert(&DesiredModel {
            source: &m.source,
            canonical_model: &m.canonical_model,
            clay: &m.clay,
            physical: None,
        });
        assert_eq!((row.alias, row.model_name), ("v1", "v1-canonical"));
        assert!(row.is_composite && row.fallback_enabled && row.fallback_on_rate_limit);
        assert_eq!(row.fallback_on_status, vec![500, 503]);
        assert_eq!(row.fallback_max_attempts, Some(3));
        assert_eq!(row.strategy, "priority");
        assert!(!row.backoff_enabled);
        assert_eq!((row.backoff_initial_ms, row.backoff_max_ms), (100, 5000));
        assert!(row.backoff_factor.is_none());
        assert_eq!(row.backoff_jitter, "full");
        assert_eq!(row.backoff_max_total_ms, Some(9000));
        assert_eq!(row.pricing.mode, None);
        assert_eq!(row.display_name, Some("Shown"));
        assert_eq!(row.capabilities.unwrap(), &names(&["vision"]));
    }
    catalog.models[0].clay.routing.fallback.backoff = Some(Backoff {
        initial_ms: 7,
        max_ms: 8,
        factor: 1.5,
        jitter: "none".to_string(),
    });
    let m = &catalog.models[0];
    assert_eq!(
        desired(DesiredModel {
            source: &m.source,
            canonical_model: &m.canonical_model,
            clay: &m.clay,
            physical: None,
        }),
        7
    );
}

#[test]
fn prices_go_to_their_columns() {
    let hourly = pricing_fields(Some(CatalogPricing::Hourly {
        rate: amount(25, 1),
        input_token_cost_ratio: amount(1, 1),
    }));
    assert_eq!(hourly.mode, Some("hourly"));
    assert_eq!(hourly.hourly.unwrap().text(), "2.5");
    assert_eq!(hourly.input_ratio.unwrap().text(), "0.1");
    assert!(hourly.input.is_none());
    assert_eq!(pricing_fields(None).mode, None);
}

#[test]
fn tariffs_are_not_scheduled() {
    assert_eq!(
        future_tariff_error("a", "2030-01-01"),
        "provisioned model \"a\" has a future tariff scheduled for 2030-01-01; startup provisioning has no scheduling semantics"
    );
    assert_eq!(
        future_cache_error("a\"b", "2030-01-01"),
        "provisioned model \"a\\\"b\" has future cache pricing scheduled for 2030-01-01; startup provisioning has no scheduling semantics"
    );
}

#[test]
fn names_must_be_known() {
    let found = || vec![("e1".to_string(), 1)];
    assert_eq!(
        names_query("inference_endpoints"),
        "SELECT id, name FROM inference_endpoints WHERE name = ANY($1)"
    );
    let ids = resolve_names("inference_endpoints", &names(&["e1"]), found()).unwrap();
    assert_eq!(ids.get("e1"), Some(1));
    assert_eq!(ids.get("e2"), None);
    assert_eq!(
        resolve_names("groups", &names(&["x", "e1", "y"]), found()).unwrap_err(),
        "unknown groups name(s): x, y"
    );
    assert_eq!(
        resolve_model_aliases(&names(&["t"]), found()).unwrap_err(),
        "unknown traffic redirect model alias(es): t"
    );
    let mut provisioned = NameIds::new();
    provisioned.insert("t".to_string(), 5);
    provisioned.insert("unused".to_string(), 6);
    let merged = merge_targets(ids, &names(&["t", "e1"]), &provisioned);
    assert_eq!(merged.get("t"), Some(5));
    assert_eq!(merged.get("e1"), Some(1));
    assert_eq!(merged.get("unused"), None);
}

#[test]
fn undeclared_components_go() {
    let row = |id: u128, model: u128, pool: &str| ComponentRow {
        id,
        deployed_model_id: model,
        pool: pool.to_string(),
    };
    let rows = vec![row(1, 10, "a"), row(2, 10, "b"), row(3, 11, "a")];
    assert_eq!(stale_components(&rows, &vec![(10, "a".to_string())]), vec![2, 3]);
    assert_eq!(stale_components(&rows, &vec![]), vec![1, 2, 3]);
}

#[test]
fn groups_and_rules_are_resolved() {
    let mut ids = NameIds::new();
    ids.insert("g".to_string(), 1);
    ids.insert("h".to_string(), 2);
    assert_eq!(group_grants(&names(&["h", "g"]), &ids), vec![2, 1]);
    let rules = vec![
        TrafficRule::Deny { purpose: "batch".to_string() },
        TrafficRule::Redirect { purpose: "chat".to_string(), target: "g".to_string() },
    ];
    let rows = traffic_rule_rows(&rules, &ids);
    assert_eq!((rows[0].action, rows[0].redirect_target_id), ("deny", None));
    assert_eq!((rows[1].action, rows[1].redirect_target_id), ("redirect", Some(1)));
    assert_eq!(rows[1].purpose, "chat");
    assert_eq!(
        close_tariff_query("model_tariffs"),
        "UPDATE model_tariffs SET valid_until = $2 WHERE id = $1"
    );
}

fn tariff_row(id: u128, purpose: Option<&str>, window: Option<&str>, input: Amount) -> TariffRow {
    TariffRow {
        id,
        name: "std".to_string(),
        input_price_per_token: input,
        output_price_per_token: amount(2, 0),
        api_key_purpose: purpose.map(|p| p.to_string()),
        completion_window: window.map(|w| w.to_string()),
        valid_until: None,
    }
}

fn tariff(purpose: &str, window: Option<&str>, input: Amount) -> DesiredTariff {
    DesiredTariff {
        name: "std".to_string(),
        purpose: purpose.to_string(),
        completion_window: window.map(|w| w.to_string()),
        input_price_per_token: input,
        output_price_per_token: amount(2, 0),
    }
}

#[test]
fn settled_tariffs_stay() {
    let rows = vec![tariff_row(1, Some("batch"), Some("24h"), amount(10, 1))];
    let plan = plan_tariffs(&rows, &vec![tariff("batch", Some("24h"), amount(1, 0))]);
    assert!(plan.close_first.is_empty() && plan.changes.is_empty() && plan.close_last.is_empty());
}

#[test]
fn changed_tariffs_are_replaced() {
    let rows = vec![
        tariff_row(1, Some("batch"), Some("24h"), amount(1, 0)),
        tariff_row(2, Some("realtime"), None, amount(1, 0)),
    ];
    let desired = vec![tariff("batch", Some("24h"), amount(3, 0)), tariff("playground", None, amount(1, 0))];
    let plan = plan_tariffs(&rows, &desired);
    assert!(plan.close_first.is_empty());
    assert_eq!(
        plan.changes,
        vec![
            TariffChange { replaces: Some(1), tariff: 0 },
            TariffChange { replaces: None, tariff: 1 },
        ]
    );
    assert_eq!(plan.close_last, vec![2]);
}

#[test]
fn a_plan_carried_out_leaves_nothing_to_do() {
    let desired = vec![tariff("batch", Some("24h"), amount(3, 0)), tariff("playground", None, amount(1, 0))];
    let after = vec![
        tariff_row(5, Some("batch"), Some("24h"), amount(3, 0)),
        tariff_row(6, Some("playground"), None, amount(1, 0)),
    ];
    let plan = plan_tariffs(&after, &desired);
    assert!(plan.close_first.is_empty() && plan.changes.is_empty() && plan.close_last.is_empty());
}

#[test]
fn rows_without_a_purpose_are_closed_first() {
    let rows = vec![
        tariff_row(1, None, None, amount(1, 0)),
        tariff_row(2, Some("batch"), None, amount(1, 0)),
        tariff_row(3, Some("batch"), None, amount(1, 0)),
    ];
    let plan = plan_tariffs(&rows, &vec![tariff("batch", None, amount(1, 0))]);
    assert_eq!(plan.close_first.len() + plan.close_last.len(), 2);
    assert!(plan.changes.is_empty());
}

fn cache_row(id: u128, read: Amount, until: Option<Timestamp>) -> CacheTariffRow {
    CacheTariffRow {
        id,
        write_multiplier_5m: amount(1, 0),
        write_multiplier_1h: amount(2, 0),
        write_multiplier_24h: amount(3, 0),
        read_multiplier: read,
        min_prefix_tokens: 10,
        valid_until: until,
    }
}

fn cache(read: Amount) -> DesiredCacheTariff {
    DesiredCacheTariff {
        write_multiplier_5m: amount(10, 1),
        write_multiplier_1h: amount(2, 0),
        write_multiplier_24h: amount(3, 0),
        read_multiplier: read,
        min_prefix_tokens: 10,
    }
}

#[test]
fn cache_tariffs_are_kept_replaced_or_closed() {
    let rows = vec![cache_row(1, amount(5, 1), None), cache_row(2, amount(5, 1), None)];
    let kept = plan_cache_tariff(&rows, Some(&cache(amount(50, 2))));
    assert_eq!((kept.close_overlapping, kept.close_active, kept.insert), (vec![2], None, false));
    let replaced = plan_cache_tariff(&rows, Some(&cache(amount(6, 1))));
    assert_eq!((replaced.close_active, replaced.insert), (Some(1), true));
    let after = vec![cache_row(3, amount(6, 1), None)];
    let again = plan_cache_tariff(&after, Some(&cache(amount(6, 1))));
    assert_eq!((again.close_overlapping, again.close_active, again.insert), (vec![], None, false));
    let closed = plan_cache_tariff(&rows, None);
    assert_eq!((closed.close_active, closed.insert), (Some(1), false));
    let new = plan_cache_tariff(&vec![], Some(&cache(amount(6, 1))));
    assert_eq!((new.close_active, new.insert), (None, true));
    let nothing = plan_cache_tariff(&vec![], None);
    assert_eq!((nothing.close_active, nothing.insert), (None, false));
    let ending = vec![cache_row(1, amount(5, 1), Some(Timestamp { secs: 9, nanos: 0 }))];
    let plan = plan_cache_tariff(&ending, Some(&cache(amount(5, 1))));
    assert_eq!((plan.close_active, plan.insert), (Some(1), true));
}
