//! The declarative model catalog: what a start-up provisioning run writes.
//!
//! A catalog declares virtual models, each with the physical deployments behind
//! it. Physical models are written first, so that the components of the virtual
//! ones can refer to them by alias. Settings that are only stored (`S`) and the
//! backoff factor (`F`) are carried through as they are.

use vstd::prelude::*;
use crate::amount::Amount;
use crate::names::{
    borrowed, distinct, entries_map, join, joined, missing_names, not_among, str_or_none, text_or_none,
    texts, without_repeats, NameIds,
};
use crate::tariff_plan::{DesiredCacheTariff, DesiredTariff};
use crate::text::{quote, quoted, same_text};

verus! {

/// The advisory lock that provisioning runs take, one at a time.
pub const MODEL_PROVISIONING_LOCK: i64 = 0x4457_4d4f_4445_4c50;

/// How a provider charges, as declared.
#[derive(Debug, Clone, Copy)]
pub enum CatalogPricing {
    PerToken { input_per_token: Option<Amount>, output_per_token: Option<Amount> },
    Hourly { rate: Amount, input_token_cost_ratio: Amount },
}

/// How long to wait between attempts.
#[derive(Debug)]
pub struct Backoff<F> {
    pub initial_ms: i32,
    pub max_ms: i32,
    pub factor: F,
    pub jitter: String,
}

/// When to fall back to another component.
#[derive(Debug)]
pub struct Fallback<F> {
    pub enabled: bool,
    pub on_rate_limit: bool,
    pub on_status: Vec<i32>,
    pub with_replacement: bool,
    pub max_attempts: Option<i32>,
    pub backoff: Option<Backoff<F>>,
    pub max_total_backoff_ms: Option<i32>,
}

/// One component of a virtual model.
#[derive(Debug)]
pub struct Component<K> {
    /// The alias of the physical deployment.
    pub deployment: String,
    pub weight: i32,
    pub enabled: bool,
    pub sort_order: i32,
    pub strip_leading_bos: bool,
    pub render_kwargs: K,
}

/// A pool of components.
#[derive(Debug)]
pub struct Pool<K> {
    pub name: String,
    pub components: Vec<Component<K>>,
}

/// How a virtual model routes.
#[derive(Debug)]
pub struct Routing<F, K> {
    pub strategy: String,
    pub fallback: Fallback<F>,
    pub pools: Vec<Pool<K>>,
}

/// What happens to requests of a purpose.
#[derive(Debug)]
pub enum TrafficRule {
    Deny { purpose: String },
    Redirect { purpose: String, target: String },
}

/// A model that an endpoint serves.
#[derive(Debug)]
pub struct PhysicalDeployment<S> {
    pub alias: String,
    pub model_name: String,
    pub endpoint: String,
    pub display_name: Option<String>,
    pub description: Option<String>,
    pub model_type: Option<String>,
    pub capabilities: Option<Vec<String>>,
    pub settings: S,
    pub provider_pricing: Option<CatalogPricing>,
}

/// A virtual model with everything declared for it.
#[derive(Debug)]
pub struct ClayModel<S, F, K> {
    pub alias: String,
    pub model_name: Option<String>,
    pub display_name: Option<String>,
    pub description: Option<String>,
    pub model_type: Option<String>,
    pub capabilities: Option<Vec<String>>,
    pub settings: S,
    pub deployments: Vec<PhysicalDeployment<S>>,
    pub routing: Routing<F, K>,
    pub tariffs: Vec<DesiredTariff>,
    pub cache_tariff: Option<DesiredCacheTariff>,
    pub access_groups: Vec<String>,
    pub traffic_rules: Vec<TrafficRule>,
}

/// One file of the catalog.
#[derive(Debug)]
pub struct CatalogModel<S, F, K> {
    pub source: String,
    pub canonical_model: String,
    pub clay: ClayModel<S, F, K>,
}

/// The whole catalog.
#[derive(Debug)]
pub struct Catalog<S, F, K> {
    pub models: Vec<CatalogModel<S, F, K>>,
}

/// A model to write: a physical deployment, or the virtual model itself.
pub struct DesiredModel<'a, S, F, K> {
    pub source: &'a str,
    pub canonical_model: &'a str,
    pub clay: &'a ClayModel<S, F, K>,
    pub physical: Option<&'a PhysicalDeployment<S>>,
}

/// The pricing columns of a model.
#[derive(Debug, Clone, Copy)]
pub struct PricingFields {
    pub mode: Option<&'static str>,
    pub input: Option<Amount>,
    pub output: Option<Amount>,
    pub hourly: Option<Amount>,
    pub input_ratio: Option<Amount>,
}

/// Whether columns are those of a price list; a model without one has none.
pub open spec fn are_fields_of(r: PricingFields, pricing: Option<CatalogPricing>) -> bool {
    match pricing {
        Some(CatalogPricing::PerToken { input_per_token, output_per_token }) => str_or_none(r.mode)
            == Some("per_token"@) && r.input == input_per_token && r.output == output_per_token
            && r.hourly is None && r.input_ratio is None,
        Some(CatalogPricing::Hourly { rate, input_token_cost_ratio }) => str_or_none(r.mode)
            == Some("hourly"@) && r.hourly == Some(rate) && r.input_ratio == Some(
            input_token_cost_ratio,
        ) && r.input is None && r.output is None,
        None => r.mode is None && r.input is None && r.output is None && r.hourly is None
            && r.input_ratio is None,
    }
}

/// The pricing columns of declared pricing: a mode and only that mode's prices.
pub fn pricing_fields(pricing: Option<CatalogPricing>) -> (r: PricingFields)
    ensures
        are_fields_of(r, pricing),
{
    match pricing {
        Some(CatalogPricing::PerToken { input_per_token, output_per_token }) => PricingFields {
            mode: Some("per_token"),
            input: input_per_token,
            output: output_per_token,
            hourly: None,
            input_ratio: None,
        },
        Some(CatalogPricing::Hourly { rate, input_token_cost_ratio }) => PricingFields {
            mode: Some("hourly"),
            input: None,
            output: None,
            hourly: Some(rate),
            input_ratio: Some(input_token_cost_ratio),
        },
        None => PricingFields {
            mode: None,
            input: None,
            output: None,
            hourly: None,
            input_ratio: None,
        },
    }
}

/// The columns that are written for a model.
pub struct ModelUpsert<'a, S, F> {
    pub model_name: &'a str,
    pub alias: &'a str,
    pub display_name: Option<&'a str>,
    pub description: Option<&'a str>,
    pub model_type: Option<&'a str>,
    pub capabilities: Option<&'a Vec<String>>,
    pub settings: &'a S,
    pub pricing: PricingFields,
    pub is_composite: bool,
    pub strategy: &'a str,
    pub fallback_enabled: bool,
    pub fallback_on_rate_limit: bool,
    pub fallback_on_status: Vec<i32>,
    pub fallback_with_replacement: bool,
    pub fallback_max_attempts: Option<i32>,
    pub backoff_enabled: bool,
    pub backoff_initial_ms: i32,
    pub backoff_max_ms: i32,
    /// The declared factor; the column's default stands where there is none.
    pub backoff_factor: Option<&'a F>,
    pub backoff_jitter: &'a str,
    pub backoff_max_total_ms: Option<i32>,
    pub provisioning_source: String,
}

/// Whether the columns that name and describe a model are those of its
/// declaration: the physical deployment's, or the virtual model's. A virtual
/// model without a model name has its canonical name.
pub open spec fn describes<S, F, K>(r: ModelUpsert<S, F>, d: DesiredModel<S, F, K>) -> bool {
    match d.physical {
        Some(p) => {
            &&& r.alias@ == p.alias@
            &&& r.model_name@ == p.model_name@
            &&& str_or_none(r.display_name) == text_or_none(p.display_name)
            &&& str_or_none(r.description) == text_or_none(p.description)
            &&& str_or_none(r.model_type) == text_or_none(p.model_type)
            &&& (match p.capabilities {
                Some(c) => r.capabilities == Some(&c),
                None => r.capabilities is None,
            })
            &&& *r.settings == p.settings
            &&& !r.is_composite
        },
        None => {
            &&& r.alias@ == d.clay.alias@
            &&& r.model_name@ == (match d.clay.model_name {
                Some(name) => name@,
                None => d.canonical_model@,
            })
            &&& str_or_none(r.display_name) == text_or_none(d.clay.display_name)
            &&& str_or_none(r.description) == text_or_none(d.clay.description)
            &&& str_or_none(r.model_type) == text_or_none(d.clay.model_type)
            &&& (match d.clay.capabilities {
                Some(c) => r.capabilities == Some(&c),
                None => r.capabilities is None,
            })
            &&& *r.settings == d.clay.settings
            &&& r.is_composite
        },
    }
}

/// Whether the routing columns are those of the declaration: a virtual model's
/// fallback rules, and none for a physical one. Backoff values fall back to
/// 100 ms, 5000 ms and full jitter.
pub open spec fn routes<S, F, K>(r: ModelUpsert<S, F>, d: DesiredModel<S, F, K>) -> bool {
    let fallback = d.clay.routing.fallback;
    let composite = d.physical is None;
    &&& r.strategy@ == d.clay.routing.strategy@
    &&& r.fallback_enabled == (composite && fallback.enabled)
    &&& r.fallback_on_rate_limit == (composite && fallback.on_rate_limit)
    &&& r.fallback_on_status@ == (if composite {
        fallback.on_status@
    } else {
        Seq::empty()
    })
    &&& r.fallback_with_replacement == (composite && fallback.with_replacement)
    &&& r.fallback_max_attempts == (if composite {
        fallback.max_attempts
    } else {
        None
    })
    &&& r.backoff_max_total_ms == (if composite {
        fallback.max_total_backoff_ms
    } else {
        None
    })
    &&& r.backoff_enabled == (composite && fallback.backoff is Some)
    &&& (match fallback.backoff {
        Some(b) => r.backoff_initial_ms == b.initial_ms && r.backoff_max_ms == b.max_ms
            && r.backoff_factor == Some(&b.factor) && r.backoff_jitter@ == b.jitter@,
        None => r.backoff_initial_ms == 100 && r.backoff_max_ms == 5000 && r.backoff_factor is None
            && r.backoff_jitter@ == "full"@,
    })
}

/// Copies status codes.
fn copy_codes(codes: &Vec<i32>) -> (r: Vec<i32>)
    ensures
        r@ == codes@,
{
    let mut out: Vec<i32> = Vec::new();
    out.extend_from_slice(codes.as_slice());
    assert(out@ =~= codes@);
    out
}

/// The columns to write for a declared model.
pub fn model_upsert<'a, S, F, K>(desired: &DesiredModel<'a, S, F, K>) -> (r: ModelUpsert<'a, S, F>)
    ensures
        describes(r, *desired),
        routes(r, *desired),
        are_fields_of(
            r.pricing,
            match desired.physical {
                Some(p) => p.provider_pricing,
                None => None,
            },
        ),
        r.provisioning_source@ == "model-catalog:"@ + desired.source@,
{
    let clay = desired.clay;
    let fallback = &clay.routing.fallback;
    let composite = desired.physical.is_none();
    let (initial, max, factor, jitter): (i32, i32, Option<&F>, &str) = match &fallback.backoff {
        Some(b) => (b.initial_ms, b.max_ms, Some(&b.factor), b.jitter.as_str()),
        None => (100, 5_000, None, "full"),
    };
    let provisioning_source = "model-catalog:".to_owned().concat(desired.source);
    let fallback_on_status = if composite {
        copy_codes(&fallback.on_status)
    } else {
        Vec::new()
    };
    match desired.physical {
        Some(physical) => ModelUpsert {
            model_name: physical.model_name.as_str(),
            alias: physical.alias.as_str(),
            display_name: borrowed(&physical.display_name),
            description: borrowed(&physical.description),
            model_type: borrowed(&physical.model_type),
            capabilities: physical.capabilities.as_ref(),
            settings: &physical.settings,
            pricing: pricing_fields(physical.provider_pricing),
            is_composite: false,
            strategy: clay.routing.strategy.as_str(),
            fallback_enabled: false,
            fallback_on_rate_limit: false,
            fallback_on_status,
            fallback_with_replacement: false,
            fallback_max_attempts: None,
            backoff_enabled: false,
            backoff_initial_ms: initial,
            backoff_max_ms: max,
            backoff_factor: factor,
            backoff_jitter: jitter,
            backoff_max_total_ms: None,
            provisioning_source,
        },
        None => ModelUpsert {
            model_name: match &clay.model_name {
                Some(name) => name.as_str(),
                None => desired.canonical_model,
            },
            alias: clay.alias.as_str(),
            display_name: borrowed(&clay.display_name),
            description: borrowed(&clay.description),
            model_type: borrowed(&clay.model_type),
            capabilities: clay.capabilities.as_ref(),
            settings: &clay.settings,
            pricing: pricing_fields(None),
            is_composite: true,
            strategy: clay.routing.strategy.as_str(),
            fallback_enabled: fallback.enabled,
            fallback_on_rate_limit: fallback.on_rate_limit,
            fallback_on_status,
            fallback_with_replacement: fallback.with_replacement,
            fallback_max_attempts: fallback.max_attempts,
            backoff_enabled: fallback.backoff.is_some(),
            backoff_initial_ms: initial,
            backoff_max_ms: max,
            backoff_factor: factor,
            backoff_jitter: jitter,
            backoff_max_total_ms: fallback.max_total_backoff_ms,
            provisioning_source,
        },
    }
}

/// One model to write in a provisioning run.
#[derive(Debug, Clone, Copy, PartialEq, Eq, Structural)]
pub enum ProvisioningStep {
    /// A physical deployment of a model.
    Physical { model: usize, deployment: usize },
    /// The virtual model itself.
    Virtual { model: usize },
}

/// The physical deployments of model `m`, the first `n` of them.
pub open spec fn deployment_steps(m: int, n: int) -> Seq<ProvisioningStep> {
    Seq::new(
        n as nat,
        |d: int| ProvisioningStep::Physical { model: m as usize, deployment: d as usize },
    )
}

/// The physical deployments of the first `n` models.
pub open spec fn physical_steps<S, F, K>(models: Seq<CatalogModel<S, F, K>>, n: int) -> Seq<
    ProvisioningStep,
>
    decreases n,
{
    if n <= 0 {
        Seq::empty()
    } else {
        physical_steps(models, n - 1) + deployment_steps(
            n - 1,
            models[n - 1].clay.deployments@.len() as int,
        )
    }
}

/// The first `n` virtual models.
pub open spec fn virtual_steps(n: int) -> Seq<ProvisioningStep> {
    Seq::new(n as nat, |m: int| ProvisioningStep::Virtual { model: m as usize })
}

/// Every model of the catalog in the order in which it is written.
pub fn provisioning_steps<S, F, K>(catalog: &Catalog<S, F, K>) -> (r: Vec<ProvisioningStep>)
    ensures
        r@ == physical_steps(catalog.models@, catalog.models@.len() as int) + virtual_steps(
            catalog.models@.len() as int,
        ),
{
    let mut steps: Vec<ProvisioningStep> = Vec::new();
    let mut m: usize = 0;
    while m < catalog.models.len()
        invariant
            m <= catalog.models@.len(),
            steps@ == physical_steps(catalog.models@, m as int),
        decreases catalog.models@.len() - m,
    {
        let ghost before = steps@;
        let deployments = &catalog.models[m].clay.deployments;
        let mut d: usize = 0;
        assert(steps@ =~= before + deployment_steps(m as int, 0));
        while d < deployments.len()
            invariant
                d <= deployments@.len(),
                steps@ == before + deployment_steps(m as int, d as int),
            decreases deployments@.len() - d,
        {
            steps.push(ProvisioningStep::Physical { model: m, deployment: d });
            assert(steps@ =~= before + deployment_steps(m as int, d + 1));
            d = d + 1;
        }
        m = m + 1;
    }
    let ghost physical = steps@;
    let mut v: usize = 0;
    assert(steps@ =~= physical + virtual_steps(0));
    while v < catalog.models.len()
        invariant
            v <= catalog.models@.len(),
            steps@ == physical + virtual_steps(v as int),
        decreases catalog.models@.len() - v,
    {
        steps.push(ProvisioningStep::Virtual { model: v });
        assert(steps@ =~= physical + virtual_steps(v + 1));
        v = v + 1;
    }
    steps
}

/// A virtual model is written only after every physical deployment, so that its
/// components refer to models that are there.
pub proof fn law_physical_models_come_first<S, F, K>(
    models: Seq<CatalogModel<S, F, K>>,
    i: int,
    j: int,
)
    requires
        0 <= i < (physical_steps(models, models.len() as int) + virtual_steps(
            models.len() as int,
        )).len(),
        0 <= j < (physical_steps(models, models.len() as int) + virtual_steps(
            models.len() as int,
        )).len(),
        (physical_steps(models, models.len() as int) + virtual_steps(
            models.len() as int,
        ))[i] is Physical,
        (physical_steps(models, models.len() as int) + virtual_steps(
            models.len() as int,
        ))[j] is Virtual,
    ensures
        i < j,
{
    lemma_physical_steps(models, models.len() as int);
}

proof fn lemma_physical_steps<S, F, K>(models: Seq<CatalogModel<S, F, K>>, n: int)
    ensures
        forall|i: int|
            0 <= i < physical_steps(models, n).len() ==> #[trigger] physical_steps(
                models,
                n,
            )[i] is Physical,
    decreases n,
{
    if n > 0 {
        lemma_physical_steps(models, n - 1);
    }
}

/// The endpoint names of the first `n` models, as declared.
pub open spec fn declared_endpoints<S, F, K>(models: Seq<CatalogModel<S, F, K>>, n: int) -> Seq<
    Seq<char>,
>
    decreases n,
{
    if n <= 0 {
        Seq::empty()
    } else {
        declared_endpoints(models, n - 1) + models[n - 1].clay.deployments@.map_values(
            |p: PhysicalDeployment<S>| p.endpoint@,
        )
    }
}

/// The access group names of the first `n` models, as declared.
pub open spec fn declared_groups<S, F, K>(models: Seq<CatalogModel<S, F, K>>, n: int) -> Seq<
    Seq<char>,
>
    decreases n,
{
    if n <= 0 {
        Seq::empty()
    } else {
        declared_groups(models, n - 1) + texts(models[n - 1].clay.access_groups@)
    }
}

/// The redirect target of a traffic rule, if it has one.
pub open spec fn redirect_target(rule: TrafficRule) -> Option<Seq<char>> {
    match rule {
        TrafficRule::Redirect { target, .. } => Some(target@),
        TrafficRule::Deny { .. } => None,
    }
}

/// The redirect targets of the first `n` rules of a list.
pub open spec fn targets_of_rules(rules: Seq<TrafficRule>, n: int) -> Seq<Seq<char>>
    decreases n,
{
    if n <= 0 {
        Seq::empty()
    } else {
        match redirect_target(rules[n - 1]) {
            Some(target) => targets_of_rules(rules, n - 1).push(target),
            None => targets_of_rules(rules, n - 1),
        }
    }
}

/// The redirect targets of the first `n` models, as declared.
pub open spec fn declared_targets<S, F, K>(models: Seq<CatalogModel<S, F, K>>, n: int) -> Seq<
    Seq<char>,
>
    decreases n,
{
    if n <= 0 {
        Seq::empty()
    } else {
        declared_targets(models, n - 1) + targets_of_rules(
            models[n - 1].clay.traffic_rules@,
            models[n - 1].clay.traffic_rules@.len() as int,
        )
    }
}

/// The endpoints that a catalog names, each once.
pub fn endpoint_names<S, F, K>(catalog: &Catalog<S, F, K>) -> (r: Vec<String>)
    ensures
        texts(r@) == without_repeats(
            declared_endpoints(catalog.models@, catalog.models@.len() as int),
        ),
{
    let mut names: Vec<String> = Vec::new();
    let mut m: usize = 0;
    assert(texts(names@) =~= declared_endpoints(catalog.models@, 0));
    while m < catalog.models.len()
        invariant
            m <= catalog.models@.len(),
            texts(names@) == declared_endpoints(catalog.models@, m as int),
        decreases catalog.models@.len() - m,
    {
        let ghost before = names@;
        let deployments = &catalog.models[m].clay.deployments;
        let ghost added = deployments@.map_values(|p: PhysicalDeployment<S>| p.endpoint@);
        let mut d: usize = 0;
        assert(texts(names@) =~= texts(before) + added.take(0));
        while d < deployments.len()
            invariant
                d <= deployments@.len(),
                added == deployments@.map_values(|p: PhysicalDeployment<S>| p.endpoint@),
                texts(names@) == texts(before) + added.take(d as int),
            decreases deployments@.len() - d,
        {
            let ghost here = names@;
            names.push(deployments[d].endpoint.clone());
            assert(texts(names@) =~= texts(here).push(deployments@[d as int].endpoint@));
            assert(added.take(d + 1) =~= added.take(d as int).push(
                deployments@[d as int].endpoint@,
            ));
            assert(texts(names@) =~= texts(before) + added.take(d + 1));
            d = d + 1;
        }
        assert(added.take(deployments@.len() as int) =~= added);
        m = m + 1;
    }
    distinct(&names)
}

/// The access groups that a catalog names, each once.
pub fn group_names<S, F, K>(catalog: &Catalog<S, F, K>) -> (r: Vec<String>)
    ensures
        texts(r@) == without_repeats(declared_groups(catalog.models@, catalog.models@.len() as int)),
{
    let mut names: Vec<String> = Vec::new();
    let mut m: usize = 0;
    assert(texts(names@) =~= declared_groups(catalog.models@, 0));
    while m < catalog.models.len()
        invariant
            m <= catalog.models@.len(),
            texts(names@) == declared_groups(catalog.models@, m as int),
        decreases catalog.models@.len() - m,
    {
        let ghost before = names@;
        let mut more = crate::names::copy_list(&catalog.models[m].clay.access_groups);
        let ghost added = more@;
        names.append(&mut more);
        assert(texts(names@) =~= texts(before) + texts(added));
        m = m + 1;
    }
    distinct(&names)
}

/// The models that the catalog's traffic rules redirect to, each once.
pub fn redirect_targets<S, F, K>(catalog: &Catalog<S, F, K>) -> (r: Vec<String>)
    ensures
        texts(r@) == without_repeats(
            declared_targets(catalog.models@, catalog.models@.len() as int),
        ),
{
    let mut names: Vec<String> = Vec::new();
    let mut m: usize = 0;
    assert(texts(names@) =~= declared_targets(catalog.models@, 0));
    while m < catalog.models.len()
        invariant
            m <= catalog.models@.len(),
            texts(names@) == declared_targets(catalog.models@, m as int),
        decreases catalog.models@.len() - m,
    {
        let ghost before = names@;
        let rules = &catalog.models[m].clay.traffic_rules;
        let mut i: usize = 0;
        assert(texts(names@) =~= texts(before) + targets_of_rules(rules@, 0));
        while i < rules.len()
            invariant
                i <= rules@.len(),
                texts(names@) == texts(before) + targets_of_rules(rules@, i as int),
            decreases rules@.len() - i,
        {
            let ghost here = names@;
            match &rules[i] {
                TrafficRule::Redirect { target, .. } => {
                    names.push(target.clone());
                    assert(texts(names@) =~= texts(here).push(target@));
                },
                TrafficRule::Deny { .. } => {},
            }
            assert(texts(names@) =~= texts(before) + targets_of_rules(rules@, i + 1));
            i = i + 1;
        }
        m = m + 1;
    }
    distinct(&names)
}

/// What a catalog expects of its aliases: whether each is a virtual model.
pub open spec fn expected_of_model<S, F, K>(model: CatalogModel<S, F, K>) -> Seq<(Seq<char>, bool)> {
    seq![(model.clay.alias@, true)] + model.clay.deployments@.map_values(
        |p: PhysicalDeployment<S>| (p.alias@, false),
    )
}

/// What the first `n` models expect of their aliases, in order.
pub open spec fn expected_types<S, F, K>(models: Seq<CatalogModel<S, F, K>>, n: int) -> Seq<
    (Seq<char>, bool),
>
    decreases n,
{
    if n <= 0 {
        Seq::empty()
    } else {
        expected_types(models, n - 1) + expected_of_model(models[n - 1])
    }
}

/// The views of a list of aliases with what is expected of them.
pub open spec fn alias_types(list: Seq<(String, bool)>) -> Seq<(Seq<char>, bool)> {
    list.map_values(|e: (String, bool)| (e.0@, e.1))
}

/// Every alias of a catalog, with whether it is to be a virtual model.
pub fn expected_model_types<S, F, K>(catalog: &Catalog<S, F, K>) -> (r: Vec<(String, bool)>)
    ensures
        alias_types(r@) == expected_types(catalog.models@, catalog.models@.len() as int),
{
    let mut out: Vec<(String, bool)> = Vec::new();
    let mut m: usize = 0;
    assert(alias_types(out@) =~= expected_types(catalog.models@, 0));
    while m < catalog.models.len()
        invariant
            m <= catalog.models@.len(),
            alias_types(out@) == expected_types(catalog.models@, m as int),
        decreases catalog.models@.len() - m,
    {
        let ghost before = alias_types(out@);
        let clay = &catalog.models[m].clay;
        let ghost all = expected_of_model(catalog.models@[m as int]);
        out.push((clay.alias.clone(), true));
        assert(alias_types(out@) =~= before + all.take(1));
        let mut d: usize = 0;
        while d < clay.deployments.len()
            invariant
                d <= clay.deployments@.len(),
                clay == catalog.models@[m as int].clay,
                m < catalog.models@.len(),
                all == expected_of_model(catalog.models@[m as int]),
                alias_types(out@) == before + all.take(d + 1),
            decreases clay.deployments@.len() - d,
        {
            let ghost here = alias_types(out@);
            out.push((clay.deployments[d].alias.clone(), false));
            assert(alias_types(out@) =~= here.push((clay.deployments@[d as int].alias@, false)));
            assert(all[d + 1] == (clay.deployments@[d as int].alias@, false));
            assert(all.take(d + 2) =~= all.take(d + 1).push(all[d + 1]));
            assert(alias_types(out@) =~= before + all.take(d + 2));
            d = d + 1;
        }
        assert(all.take(all.len() as int) =~= all);
        m = m + 1;
    }
    out
}

/// What is expected of an alias; what was said last holds.
pub open spec fn expected_type(list: Seq<(Seq<char>, bool)>, alias: Seq<char>) -> Option<bool>
    decreases list.len(),
{
    if list.len() == 0 {
        None
    } else if list.last().0 == alias {
        Some(list.last().1)
    } else {
        expected_type(list.drop_last(), alias)
    }
}

/// Checks that an alias that is there already is the kind of model that the
/// catalog declares under it.
pub fn check_existing_type(expected: &Vec<(String, bool)>, alias: &str, is_composite: bool) -> (r:
    Result<(), String>)
    requires
        expected_type(alias_types(expected@), alias@) is Some,
    ensures
        if expected_type(alias_types(expected@), alias@) == Some(is_composite) {
            r is Ok
        } else {
            r matches Err(e) && e@ == "model alias "@ + quoted(alias@) + " already exists as a "@
                + (if is_composite {
                "virtual"@
            } else {
                "physical"@
            }) + " model"@
        },
{
    let mut i: usize = expected.len();
    assert(expected@.take(i as int) =~= expected@);
    while i > 0
        invariant
            i <= expected@.len(),
            expected_type(alias_types(expected@), alias@) is Some,
            expected_type(alias_types(expected@), alias@) == expected_type(
                alias_types(expected@.take(i as int)),
                alias@,
            ),
        decreases i,
    {
        assert(alias_types(expected@.take(i as int)).drop_last() =~= alias_types(
            expected@.take(i - 1),
        ));
        assert(alias_types(expected@.take(i as int)).last() == (
            expected@[i - 1].0@,
            expected@[i - 1].1,
        ));
        i = i - 1;
        if same_text(expected[i].0.as_str(), alias) {
            if expected[i].1 == is_composite {
                return Ok(());
            }
            let kind = if is_composite {
                "virtual"
            } else {
                "physical"
            };
            return Err(
                "model alias ".to_owned().concat(quote(alias).as_str()).concat(
                    " already exists as a ",
                ).concat(kind).concat(" model"),
            );
        }
    }
    assert(false);
    Ok(())
}

/// What is said of a tariff that only begins after the run: the run has no
/// notion of scheduling.
pub fn future_tariff_error(alias: &str, valid_from: &str) -> (r: String)
    ensures
        r@ == "provisioned model "@ + quoted(alias@) + " has a future tariff scheduled for "@
            + valid_from@ + "; startup provisioning has no scheduling semantics"@,
{
    "provisioned model ".to_owned().concat(quote(alias).as_str()).concat(
        " has a future tariff scheduled for ",
    ).concat(valid_from).concat("; startup provisioning has no scheduling semantics")
}

/// What is said of cache pricing that only begins after the run.
pub fn future_cache_error(alias: &str, valid_from: &str) -> (r: String)
    ensures
        r@ == "provisioned model "@ + quoted(alias@) + " has future cache pricing scheduled for "@
            + valid_from@ + "; startup provisioning has no scheduling semantics"@,
{
    "provisioned model ".to_owned().concat(quote(alias).as_str()).concat(
        " has future cache pricing scheduled for ",
    ).concat(valid_from).concat("; startup provisioning has no scheduling semantics")
}

/// Resolves names that were asked for with the entries that were found: every
/// name must be among them.
fn resolve(prefix: &str, requested: &Vec<String>, found: Vec<(String, u128)>) -> (r: Result<
    NameIds,
    String,
>)
    ensures
        ({
            let missing = not_among(texts(requested@), entries_map(found@).dom());
            if missing.len() == 0 {
                r matches Ok(ids) && ids@ == entries_map(found@)
            } else {
                r matches Err(e) && e@ == prefix@ + joined(missing, ", "@)
            }
        }),
{
    let ids = NameIds::of_entries(found);
    let missing = missing_names(requested, &ids);
    assert(texts(missing@).len() == missing@.len());
    if missing.len() == 0 {
        Ok(ids)
    } else {
        Err(prefix.to_owned().concat(join(&missing, ", ").as_str()))
    }
}

/// The query that looks names of a table up.
pub fn names_query(table: &str) -> (r: String)
    ensures
        r@ == "SELECT id, name FROM "@ + table@ + " WHERE name = ANY($1)"@,
{
    "SELECT id, name FROM ".to_owned().concat(table).concat(" WHERE name = ANY($1)")
}

/// The identifiers of the names of a table that were asked for, or an error that
/// lists those that are unknown.
pub fn resolve_names(table: &str, requested: &Vec<String>, found: Vec<(String, u128)>) -> (r: Result<
    NameIds,
    String,
>)
    ensures
        ({
            let missing = not_among(texts(requested@), entries_map(found@).dom());
            if missing.len() == 0 {
                r matches Ok(ids) && ids@ == entries_map(found@)
            } else {
                r matches Err(e) && e@ == "unknown "@ + table@ + " name(s): "@ + joined(
                    missing,
                    ", "@,
                )
            }
        }),
{
    let prefix = "unknown ".to_owned().concat(table).concat(" name(s): ");
    resolve(prefix.as_str(), requested, found)
}

/// The identifiers of the model aliases that redirects ask for, or an error that
/// lists those that are unknown.
pub fn resolve_model_aliases(requested: &Vec<String>, found: Vec<(String, u128)>) -> (r: Result<
    NameIds,
    String,
>)
    ensures
        ({
            let missing = not_among(texts(requested@), entries_map(found@).dom());
            if missing.len() == 0 {
                r matches Ok(ids) && ids@ == entries_map(found@)
            } else {
                r matches Err(e) && e@ == "unknown traffic redirect model alias(es): "@ + joined(
                    missing,
                    ", "@,
                )
            }
        }),
{
    resolve("unknown traffic redirect model alias(es): ", requested, found)
}

/// Identifiers of redirect targets: those that were looked up, and over them
/// those that the run itself wrote.
pub open spec fn merged_targets(
    resolved: Map<Seq<char>, u128>,
    targets: Seq<Seq<char>>,
    provisioned: Map<Seq<char>, u128>,
    n: int,
) -> Map<Seq<char>, u128>
    decreases n,
{
    if n <= 0 {
        resolved
    } else if provisioned.contains_key(targets[n - 1]) {
        merged_targets(resolved, targets, provisioned, n - 1).insert(
            targets[n - 1],
            provisioned[targets[n - 1]],
        )
    } else {
        merged_targets(resolved, targets, provisioned, n - 1)
    }
}

/// Adds to the looked-up redirect targets those that the run itself wrote.
pub fn merge_targets(resolved: NameIds, targets: &Vec<String>, provisioned: &NameIds) -> (r: NameIds)
    ensures
        r@ == merged_targets(resolved@, texts(targets@), provisioned@, targets@.len() as int),
{
    let mut out = resolved;
    let mut i: usize = 0;
    while i < targets.len()
        invariant
            i <= targets@.len(),
            out@ == merged_targets(resolved@, texts(targets@), provisioned@, i as int),
        decreases targets@.len() - i,
    {
        match provisioned.get(targets[i].as_str()) {
            Some(id) => {
                out.insert(targets[i].clone(), id);
            },
            None => {},
        }
        i = i + 1;
    }
    out
}

/// Every redirect target has an identifier once those that the run did not write
/// are looked up.
pub proof fn law_redirect_targets_resolve(
    resolved: Map<Seq<char>, u128>,
    targets: Seq<Seq<char>>,
    provisioned: Map<Seq<char>, u128>,
)
    requires
        not_among(not_among(targets, provisioned.dom()), resolved.dom()).len() == 0,
    ensures
        forall|i: int|
            0 <= i < targets.len() ==> merged_targets(
                resolved,
                targets,
                provisioned,
                targets.len() as int,
            ).contains_key(#[trigger] targets[i]),
{
    assert forall|i: int| 0 <= i < targets.len() implies merged_targets(
        resolved,
        targets,
        provisioned,
        targets.len() as int,
    ).contains_key(#[trigger] targets[i]) by {
        lemma_merged(resolved, targets, provisioned, targets.len() as int);
        if !provisioned.contains_key(targets[i]) {
            let unwritten = not_among(targets, provisioned.dom());
            let p = |name: Seq<char>| !provisioned.dom().contains(name);
            targets.lemma_filter_contains(p, i);
            let j = choose|j: int| 0 <= j < unwritten.len() && unwritten[j] == targets[i];
            let q = |name: Seq<char>| !resolved.dom().contains(name);
            if q(unwritten[j]) {
                unwritten.lemma_filter_contains(q, j);
            }
        }
    }
}

proof fn lemma_merged(
    resolved: Map<Seq<char>, u128>,
    targets: Seq<Seq<char>>,
    provisioned: Map<Seq<char>, u128>,
    n: int,
)
    requires
        0 <= n <= targets.len(),
    ensures
        forall|name: Seq<char>|
            resolved.contains_key(name) ==> #[trigger] merged_targets(
                resolved,
                targets,
                provisioned,
                n,
            ).contains_key(name),
        forall|i: int|
            0 <= i < n && provisioned.contains_key(#[trigger] targets[i]) ==> merged_targets(
                resolved,
                targets,
                provisioned,
                n,
            ).contains_key(targets[i]),
    decreases n,
{
    if n > 0 {
        lemma_merged(resolved, targets, provisioned, n - 1);
        let before = merged_targets(resolved, targets, provisioned, n - 1);
        assert forall|name: Seq<char>| resolved.contains_key(name) implies #[trigger] merged_targets(
            resolved,
            targets,
            provisioned,
            n,
        ).contains_key(name) by {
            assert(before.contains_key(name));
        }
    }
}

/// A component row of a virtual model.
#[derive(Debug)]
pub struct ComponentRow {
    pub id: u128,
    pub deployed_model_id: u128,
    pub pool: String,
}

/// What a component is known by within its virtual model.
pub struct ComponentKey {
    pub deployed_model_id: u128,
    pub pool: Seq<char>,
}

/// The key of a component row.
pub open spec fn component_key(row: ComponentRow) -> ComponentKey {
    ComponentKey { deployed_model_id: row.deployed_model_id, pool: row.pool@ }
}

/// The keys of declared components, with the identifiers of their deployments.
pub open spec fn declared_keys(desired: Seq<(u128, String)>) -> Seq<ComponentKey> {
    desired.map_values(|d: (u128, String)| ComponentKey { deployed_model_id: d.0, pool: d.1@ })
}

/// Whether a row has to go: its key is not declared, and no later row has it.
pub open spec fn is_stale(rows: Seq<ComponentRow>, desired: Seq<(u128, String)>, i: int) -> bool {
    &&& !declared_keys(desired).contains(component_key(rows[i]))
    &&& forall|j: int|
        i < j < rows.len() ==> component_key(#[trigger] rows[j]) != component_key(rows[i])
}

/// The rows that have to go, among the first `n`.
pub open spec fn stale_ids(rows: Seq<ComponentRow>, desired: Seq<(u128, String)>, n: int) -> Seq<
    u128,
>
    decreases n,
{
    if n <= 0 {
        Seq::empty()
    } else if is_stale(rows, desired, n - 1) {
        stale_ids(rows, desired, n - 1).push(rows[n - 1].id)
    } else {
        stale_ids(rows, desired, n - 1)
    }
}

/// The component rows whose deployment and pool are not declared any more.
pub fn stale_components(rows: &Vec<ComponentRow>, desired: &Vec<(u128, String)>) -> (r: Vec<u128>)
    ensures
        r@ == stale_ids(rows@, desired@, rows@.len() as int),
{
    let mut out: Vec<u128> = Vec::new();
    let mut i: usize = 0;
    while i < rows.len()
        invariant
            i <= rows@.len(),
            out@ == stale_ids(rows@, desired@, i as int),
        decreases rows@.len() - i,
    {
        let mut stale = true;
        let mut d: usize = 0;
        while d < desired.len()
            invariant
                d <= desired@.len(),
                i < rows@.len(),
                stale == !declared_keys(desired@).take(d as int).contains(
                    component_key(rows@[i as int]),
                ),
            decreases desired@.len() - d,
        {
            let ghost keys = declared_keys(desired@);
            let ghost key = component_key(rows@[i as int]);
            assert(keys.take(d + 1) =~= keys.take(d as int).push(keys[d as int]));
            let same = desired[d].0 == rows[i].deployed_model_id && same_text(
                desired[d].1.as_str(),
                rows[i].pool.as_str(),
            );
            assert(same == (keys[d as int] == key));
            proof {
                lemma_push_contains(keys.take(d as int), keys[d as int], key);
            }
            if same {
                stale = false;
            }
            d = d + 1;
        }
        assert(declared_keys(desired@).take(desired@.len() as int) =~= declared_keys(desired@));
        let mut last = true;
        let mut j: usize = i + 1;
        while j < rows.len()
            invariant
                i < j <= rows@.len(),
                last == (forall|l: int|
                    i < l < j ==> component_key(#[trigger] rows@[l]) != component_key(
                        rows@[i as int],
                    )),
            decreases rows@.len() - j,
        {
            if rows[j].deployed_model_id == rows[i].deployed_model_id && same_text(
                rows[j].pool.as_str(),
                rows[i].pool.as_str(),
            ) {
                assert(component_key(rows@[j as int]) == component_key(rows@[i as int]));
                last = false;
            }
            j = j + 1;
        }
        if stale && last {
            out.push(rows[i].id);
        }
        i = i + 1;
    }
    out
}

proof fn lemma_push_contains<T>(s: Seq<T>, x: T, y: T)
    ensures
        s.push(x).contains(y) <==> (s.contains(y) || x == y),
{
    assert(s.push(x)[s.len() as int] == x);
    if s.contains(y) {
        let i = choose|i: int| 0 <= i < s.len() && s[i] == y;
        assert(s.push(x)[i] == y);
    }
    if s.push(x).contains(y) {
        let i = choose|i: int| 0 <= i < s.push(x).len() && s.push(x)[i] == y;
        if i < s.len() {
            assert(s[i] == y);
        }
    }
}

/// Where no two rows have the same key, exactly the rows whose key is not
/// declared have to go: a declared component is never deleted, and no other is
/// left.
pub proof fn law_exactly_undeclared_components_go(
    rows: Seq<ComponentRow>,
    desired: Seq<(u128, String)>,
    i: int,
)
    requires
        0 <= i < rows.len(),
        forall|a: int, b: int|
            0 <= a < b < rows.len() ==> component_key(#[trigger] rows[a]) != component_key(
                #[trigger] rows[b],
            ),
    ensures
        is_stale(rows, desired, i) <==> !declared_keys(desired).contains(component_key(rows[i])),
{
    assert forall|j: int| i < j < rows.len() implies component_key(#[trigger] rows[j])
        != component_key(rows[i]) by {
        assert(component_key(rows[i]) != component_key(rows[j]));
    }
}

/// The groups to grant access to, in the order in which they are declared.
pub fn group_grants(declared: &Vec<String>, groups: &NameIds) -> (r: Vec<u128>)
    requires
        forall|i: int| 0 <= i < declared@.len() ==> groups@.contains_key(#[trigger] declared@[i]@),
    ensures
        r@ == texts(declared@).map_values(|name: Seq<char>| groups@[name]),
{
    let mut out: Vec<u128> = Vec::new();
    let mut i: usize = 0;
    while i < declared.len()
        invariant
            i <= declared@.len(),
            forall|j: int|
                0 <= j < declared@.len() ==> groups@.contains_key(#[trigger] declared@[j]@),
            out@.len() == i,
            forall|j: int| 0 <= j < i ==> #[trigger] out@[j] == groups@[declared@[j]@],
        decreases declared@.len() - i,
    {
        match groups.get(declared[i].as_str()) {
            Some(id) => {
                out.push(id);
            },
            None => {
                assert(false);
            },
        }
        i = i + 1;
    }
    assert(out@ =~= texts(declared@).map_values(|name: Seq<char>| groups@[name]));
    out
}

/// A traffic rule as it is stored.
#[derive(Debug)]
pub struct TrafficRuleRow {
    pub purpose: String,
    pub action: &'static str,
    pub redirect_target_id: Option<u128>,
}

/// Whether a row stores a rule.
pub open spec fn stores_rule(
    row: TrafficRuleRow,
    rule: TrafficRule,
    targets: Map<Seq<char>, u128>,
) -> bool {
    match rule {
        TrafficRule::Deny { purpose } => row.purpose@ == purpose@ && row.action@ == "deny"@
            && row.redirect_target_id is None,
        TrafficRule::Redirect { purpose, target } => row.purpose@ == purpose@ && row.action@
            == "redirect"@ && row.redirect_target_id == Some(targets[target@]),
    }
}

/// The traffic rules of a model as they are stored, in order.
pub fn traffic_rule_rows(rules: &Vec<TrafficRule>, targets: &NameIds) -> (r: Vec<TrafficRuleRow>)
    requires
        forall|i: int|
            0 <= i < rules@.len() ==> (redirect_target(#[trigger] rules@[i]) matches Some(t)
                ==> targets@.contains_key(t)),
    ensures
        r@.len() == rules@.len(),
        forall|i: int| 0 <= i < r@.len() ==> stores_rule(#[trigger] r@[i], rules@[i], targets@),
{
    let mut out: Vec<TrafficRuleRow> = Vec::new();
    let mut i: usize = 0;
    while i < rules.len()
        invariant
            i <= rules@.len(),
            forall|j: int|
                0 <= j < rules@.len() ==> (redirect_target(#[trigger] rules@[j]) matches Some(t)
                    ==> targets@.contains_key(t)),
            out@.len() == i,
            forall|j: int| 0 <= j < i ==> stores_rule(#[trigger] out@[j], rules@[j], targets@),
        decreases rules@.len() - i,
    {
        let rule = &rules[i];
        assert(redirect_target(rules@[i as int]) == redirect_target(*rule));
        let row = match rule {
            TrafficRule::Deny { purpose } => TrafficRuleRow {
                purpose: purpose.clone(),
                action: "deny",
                redirect_target_id: None,
            },
            TrafficRule::Redirect { purpose, target } => TrafficRuleRow {
                purpose: purpose.clone(),
                action: "redirect",
                redirect_target_id: targets.get(target.as_str()),
            },
        };
        out.push(row);
        i = i + 1;
    }
    out
}

/// The query that ends a tariff row.
pub fn close_tariff_query(table: &str) -> (r: String)
    ensures
        r@ == "UPDATE "@ + table@ + " SET valid_until = $2 WHERE id = $1"@,
{
    "UPDATE ".to_owned().concat(table).concat(" SET valid_until = $2 WHERE id = $1")
}

/// A model that is charged by token has the declared input and output price and
/// no hourly rate, one that is charged by the hour has the declared rate and ratio
/// and no price by token, and the two modes have different names.
pub proof fn law_declared_prices_are_written(
    tokens: PricingFields,
    hours: PricingFields,
    nothing: PricingFields,
    input: Option<Amount>,
    output: Option<Amount>,
    rate: Amount,
    ratio: Amount,
)
    requires
        are_fields_of(
            tokens,
            Some(CatalogPricing::PerToken { input_per_token: input, output_per_token: output }),
        ),
        are_fields_of(
            hours,
            Some(CatalogPricing::Hourly { rate, input_token_cost_ratio: ratio }),
        ),
        are_fields_of(nothing, None),
    ensures
        tokens.input == input,
        tokens.output == output,
        tokens.hourly is None,
        tokens.input_ratio is None,
        hours.hourly == Some(rate),
        hours.input_ratio == Some(ratio),
        hours.input is None,
        hours.output is None,
        tokens.mode is Some,
        hours.mode is Some,
        (tokens.mode->0)@ != (hours.mode->0)@,
        nothing.mode is None,
        nothing.input is None,
        nothing.output is None,
        nothing.hourly is None,
        nothing.input_ratio is None,
{
    reveal_strlit("per_token");
    reveal_strlit("hourly");
    assert("per_token"@.len() == 9 && "hourly"@.len() == 6);
}

/// A physical model is written as its deployment declares it, and never falls
/// back.
pub proof fn law_physical_models_are_written_as_declared<S, F, K>(
    r: ModelUpsert<S, F>,
    d: DesiredModel<S, F, K>,
    p: PhysicalDeployment<S>,
)
    requires
        describes(r, d),
        routes(r, d),
        d.physical is Some,
        *(d.physical->0) == p,
    ensures
        r.alias@ == p.alias@,
        r.model_name@ == p.model_name@,
        r.display_name is Some <==> p.display_name is Some,
        r.display_name is Some ==> (r.display_name->0)@ == (p.display_name->0)@,
        r.description is Some <==> p.description is Some,
        r.description is Some ==> (r.description->0)@ == (p.description->0)@,
        r.model_type is Some <==> p.model_type is Some,
        r.model_type is Some ==> (r.model_type->0)@ == (p.model_type->0)@,
        r.capabilities is Some <==> p.capabilities is Some,
        r.capabilities is Some ==> *(r.capabilities->0) == p.capabilities->0,
        *r.settings == p.settings,
        !r.is_composite,
        !r.fallback_enabled,
        !r.fallback_on_rate_limit,
        !r.fallback_with_replacement,
        !r.backoff_enabled,
        r.fallback_on_status@.len() == 0,
        r.fallback_max_attempts is None,
        r.backoff_max_total_ms is None,
{
}

/// A virtual model is written as the catalog declares it, with its own routing.
/// Without a model name it has the canonical one.
pub proof fn law_virtual_models_are_written_as_declared<S, F, K>(
    r: ModelUpsert<S, F>,
    d: DesiredModel<S, F, K>,
)
    requires
        describes(r, d),
        routes(r, d),
        d.physical is None,
    ensures
        r.alias@ == d.clay.alias@,
        d.clay.model_name is Some ==> r.model_name@ == (d.clay.model_name->0)@,
        d.clay.model_name is None ==> r.model_name@ == d.canonical_model@,
        r.display_name is Some <==> d.clay.display_name is Some,
        r.display_name is Some ==> (r.display_name->0)@ == (d.clay.display_name->0)@,
        r.description is Some <==> d.clay.description is Some,
        r.description is Some ==> (r.description->0)@ == (d.clay.description->0)@,
        r.model_type is Some <==> d.clay.model_type is Some,
        r.model_type is Some ==> (r.model_type->0)@ == (d.clay.model_type->0)@,
        r.capabilities is Some <==> d.clay.capabilities is Some,
        r.capabilities is Some ==> *(r.capabilities->0) == d.clay.capabilities->0,
        *r.settings == d.clay.settings,
        r.is_composite,
        r.strategy@ == d.clay.routing.strategy@,
        r.fallback_enabled == d.clay.routing.fallback.enabled,
        r.fallback_on_rate_limit == d.clay.routing.fallback.on_rate_limit,
        r.fallback_on_status@ == d.clay.routing.fallback.on_status@,
        r.fallback_with_replacement == d.clay.routing.fallback.with_replacement,
        r.fallback_max_attempts == d.clay.routing.fallback.max_attempts,
        r.backoff_max_total_ms == d.clay.routing.fallback.max_total_backoff_ms,
        r.backoff_enabled <==> d.clay.routing.fallback.backoff is Some,
        d.clay.routing.fallback.backoff is Some ==> r.backoff_initial_ms == (
        d.clay.routing.fallback.backoff->0).initial_ms && r.backoff_max_ms == (
        d.clay.routing.fallback.backoff->0).max_ms && r.backoff_jitter@ == (
        d.clay.routing.fallback.backoff->0).jitter@ && r.backoff_factor is Some && *(
        r.backoff_factor->0) == (d.clay.routing.fallback.backoff->0).factor,
        d.clay.routing.fallback.backoff is None ==> r.backoff_initial_ms == 100
            && r.backoff_max_ms == 5000 && r.backoff_factor is None,
{
}

proof fn lemma_step_is_there<S, F, K>(
    models: Seq<CatalogModel<S, F, K>>,
    n: int,
    m: int,
    d: int,
) -> (place: int)
    requires
        0 <= m < n <= models.len(),
        0 <= d < models[m].clay.deployments@.len(),
    ensures
        0 <= place < physical_steps(models, n).len(),
        physical_steps(models, n)[place] == (ProvisioningStep::Physical {
            model: m as usize,
            deployment: d as usize,
        }),
    decreases n,
{
    let before = physical_steps(models, n - 1);
    if m == n - 1 {
        before.len() + d
    } else {
        lemma_step_is_there(models, n - 1, m, d)
    }
}

/// How many deployments the first `n` models declare.
pub open spec fn deployments_of<S, F, K>(models: Seq<CatalogModel<S, F, K>>, n: int) -> int
    decreases n,
{
    if n <= 0 {
        0
    } else {
        deployments_of(models, n - 1) + models[n - 1].clay.deployments@.len()
    }
}

proof fn lemma_steps_count<S, F, K>(models: Seq<CatalogModel<S, F, K>>, n: int)
    ensures
        physical_steps(models, n).len() == deployments_of(models, n),
    decreases n,
{
    if n > 0 {
        lemma_steps_count(models, n - 1);
    }
}

/// A run writes every deployment of every model and every virtual model, and
/// takes no more steps than there are of these.
pub proof fn law_every_model_is_written<S, F, K>(
    models: Seq<CatalogModel<S, F, K>>,
    m: int,
    d: int,
)
    requires
        0 <= m < models.len(),
        0 <= d < models[m].clay.deployments@.len(),
    ensures
        ({
            let steps = physical_steps(models, models.len() as int) + virtual_steps(
                models.len() as int,
            );
            &&& steps.len() == deployments_of(models, models.len() as int) + models.len()
            &&& steps.contains(
                ProvisioningStep::Physical { model: m as usize, deployment: d as usize },
            )
            &&& steps.contains(ProvisioningStep::Virtual { model: m as usize })
        }),
{
    let n = models.len() as int;
    let physical = physical_steps(models, n);
    let steps = physical + virtual_steps(n);
    let place = lemma_step_is_there(models, n, m, d);
    assert(steps[place] == physical[place]);
    assert(steps[physical.len() + m] == (ProvisioningStep::Virtual { model: m as usize }));
    lemma_steps_count(models, n);
}

/// The endpoint of every deployment is among those that are looked up, and every
/// access group too.
pub proof fn law_every_name_is_looked_up<S, F, K>(
    models: Seq<CatalogModel<S, F, K>>,
    n: int,
    m: int,
    i: int,
)
    requires
        0 <= m < n <= models.len(),
    ensures
        0 <= i < models[m].clay.deployments@.len() ==> declared_endpoints(models, n).contains(
            models[m].clay.deployments@[i].endpoint@,
        ),
        0 <= i < models[m].clay.access_groups@.len() ==> declared_groups(models, n).contains(
            models[m].clay.access_groups@[i]@,
        ),
        0 <= i < models[m].clay.traffic_rules@.len() ==> (
        models[m].clay.traffic_rules@[i] matches TrafficRule::Redirect { purpose, target }
            ==> declared_targets(models, n).contains(target@)),
    decreases n,
{
    let here = models[n - 1].clay;
    let endpoints = here.deployments@.map_values(|p: PhysicalDeployment<S>| p.endpoint@);
    let before = declared_endpoints(models, n - 1);
    let groups = declared_groups(models, n - 1);
    let targets = declared_targets(models, n - 1);
    let own = targets_of_rules(here.traffic_rules@, here.traffic_rules@.len() as int);
    if m < n - 1 {
        law_every_name_is_looked_up(models, n - 1, m, i);
        if 0 <= i < models[m].clay.deployments@.len() {
            lemma_contains_front(before, endpoints, models[m].clay.deployments@[i].endpoint@);
        }
        if 0 <= i < models[m].clay.access_groups@.len() {
            lemma_contains_front(
                groups,
                texts(here.access_groups@),
                models[m].clay.access_groups@[i]@,
            );
        }
        if 0 <= i < models[m].clay.traffic_rules@.len() {
            if let TrafficRule::Redirect { purpose, target } = models[m].clay.traffic_rules@[i] {
                lemma_contains_front(targets, own, target@);
            }
        }
    } else {
        if 0 <= i < here.deployments@.len() {
            assert((before + endpoints)[before.len() + i] == here.deployments@[i].endpoint@);
        }
        if 0 <= i < here.access_groups@.len() {
            assert((groups + texts(here.access_groups@))[groups.len() + i]
                == here.access_groups@[i]@);
        }
        if 0 <= i < here.traffic_rules@.len() {
            if let TrafficRule::Redirect { purpose, target } = here.traffic_rules@[i] {
                let place = lemma_target_is_there(
                    here.traffic_rules@,
                    here.traffic_rules@.len() as int,
                    i,
                );
                assert((targets + own)[targets.len() + place] == target@);
            }
        }
    }
}

proof fn lemma_contains_front<T>(a: Seq<T>, b: Seq<T>, x: T)
    requires
        a.contains(x),
    ensures
        (a + b).contains(x),
{
    let i = choose|i: int| 0 <= i < a.len() && a[i] == x;
    assert((a + b)[i] == x);
}

proof fn lemma_target_is_there(rules: Seq<TrafficRule>, n: int, i: int) -> (place: int)
    requires
        0 <= i < n <= rules.len(),
        rules[i] is Redirect,
    ensures
        0 <= place < targets_of_rules(rules, n).len(),
        Some(targets_of_rules(rules, n)[place]) == redirect_target(rules[i]),
    decreases n,
{
    if i == n - 1 {
        targets_of_rules(rules, n - 1).len() as int
    } else {
        lemma_target_is_there(rules, n - 1, i)
    }
}

/// A rule that redirects has its target, and one that denies has none.
pub proof fn law_redirects_have_targets(purpose: String, target: String)
    ensures
        redirect_target(TrafficRule::Redirect { purpose, target }) == Some(target@),
        redirect_target(TrafficRule::Deny { purpose }) is None,
{
}

proof fn lemma_expected_is_there<S, F, K>(
    models: Seq<CatalogModel<S, F, K>>,
    n: int,
    m: int,
    d: int,
) -> (place: int)
    requires
        0 <= m < n <= models.len(),
        -1 <= d < models[m].clay.deployments@.len(),
    ensures
        0 <= place < expected_types(models, n).len(),
        expected_types(models, n)[place] == expected_of_model(models[m])[d + 1],
    decreases n,
{
    if m == n - 1 {
        expected_types(models, n - 1).len() + d + 1
    } else {
        lemma_expected_is_there(models, n - 1, m, d)
    }
}

/// Every virtual model is expected under its alias as virtual, and every
/// deployment under its own as physical.
pub proof fn law_every_alias_is_expected<S, F, K>(
    models: Seq<CatalogModel<S, F, K>>,
    m: int,
    d: int,
)
    requires
        0 <= m < models.len(),
        0 <= d < models[m].clay.deployments@.len(),
    ensures
        expected_types(models, models.len() as int).contains((models[m].clay.alias@, true)),
        expected_types(models, models.len() as int).contains(
            (models[m].clay.deployments@[d].alias@, false),
        ),
{
    let n = models.len() as int;
    let a = lemma_expected_is_there(models, n, m, -1);
    let b = lemma_expected_is_there(models, n, m, d);
    assert(expected_of_model(models[m])[0] == (models[m].clay.alias@, true));
    assert(expected_of_model(models[m])[d + 1] == (models[m].clay.deployments@[d].alias@, false));
}

/// What is said last of an alias is expected of it.
pub proof fn law_last_expectation_holds(
    list: Seq<(Seq<char>, bool)>,
    alias: Seq<char>,
    other: Seq<char>,
    is_virtual: bool,
)
    ensures
        expected_type(list.push((alias, is_virtual)), alias) == Some(is_virtual),
        other != alias ==> expected_type(list.push((alias, is_virtual)), other) == expected_type(
            list,
            other,
        ),
        expected_type(Seq::empty(), alias) is None,
{
    assert(list.push((alias, is_virtual)).drop_last() =~= list);
}

/// A redirect goes to the model that the run itself wrote under the target's
/// alias, and only otherwise to one that was there.
pub proof fn law_redirects_prefer_the_runs_own_models(
    resolved: Map<Seq<char>, u128>,
    targets: Seq<Seq<char>>,
    provisioned: Map<Seq<char>, u128>,
    n: int,
    name: Seq<char>,
)
    requires
        0 <= n <= targets.len(),
    ensures
        targets.take(n).contains(name) && provisioned.contains_key(name) ==> merged_targets(
            resolved,
            targets,
            provisioned,
            n,
        ).contains_key(name) && merged_targets(resolved, targets, provisioned, n)[name]
            == provisioned[name],
        !(targets.take(n).contains(name) && provisioned.contains_key(name)) ==> (merged_targets(
            resolved,
            targets,
            provisioned,
            n,
        ).contains_key(name) <==> resolved.contains_key(name)) && (resolved.contains_key(name)
            ==> merged_targets(resolved, targets, provisioned, n)[name] == resolved[name]),
    decreases n,
{
    if n > 0 {
        law_redirects_prefer_the_runs_own_models(resolved, targets, provisioned, n - 1, name);
        assert(targets.take(n) =~= targets.take(n - 1).push(targets[n - 1]));
        lemma_push_contains(targets.take(n - 1), targets[n - 1], name);
    }
}

proof fn lemma_stale_ids(
    rows: Seq<ComponentRow>,
    desired: Seq<(u128, String)>,
    n: int,
    i: int,
)
    requires
        0 <= i < rows.len(),
        0 <= n <= rows.len(),
    ensures
        i < n && is_stale(rows, desired, i) ==> stale_ids(rows, desired, n).contains(rows[i].id),
        !is_stale(rows, desired, i) && (forall|j: int|
            0 <= j < rows.len() && j != i ==> (#[trigger] rows[j]).id != rows[i].id)
            ==> !stale_ids(rows, desired, n).contains(rows[i].id),
    decreases n,
{
    if n > 0 {
        lemma_stale_ids(rows, desired, n - 1, i);
        lemma_push_contains(stale_ids(rows, desired, n - 1), rows[n - 1].id, rows[i].id);
    }
}

/// A component row is deleted exactly where no declared component has both its
/// deployment and its pool, as long as no two rows share these or an identifier.
pub proof fn law_only_undeclared_components_are_deleted(
    rows: Seq<ComponentRow>,
    desired: Seq<(u128, String)>,
    i: int,
)
    requires
        0 <= i < rows.len(),
        forall|j: int|
            0 <= j < rows.len() && j != i ==> (#[trigger] rows[j]).id != rows[i].id && !(
            rows[j].deployed_model_id == rows[i].deployed_model_id && rows[j].pool@
                == rows[i].pool@),
    ensures
        stale_ids(rows, desired, rows.len() as int).contains(rows[i].id) <==> forall|d: int|
            0 <= d < desired.len() ==> (#[trigger] desired[d]).0 != rows[i].deployed_model_id
                || desired[d].1@ != rows[i].pool@,
{
    lemma_stale_ids(rows, desired, rows.len() as int, i);
    let keys = declared_keys(desired);
    let key = component_key(rows[i]);
    assert(keys.contains(key) <==> exists|d: int|
        0 <= d < desired.len() && (#[trigger] desired[d]).0 == rows[i].deployed_model_id
            && desired[d].1@ == rows[i].pool@) by {
        if keys.contains(key) {
            let d = choose|d: int| 0 <= d < keys.len() && keys[d] == key;
            assert(desired[d].0 == rows[i].deployed_model_id);
        }
        if exists|d: int|
            0 <= d < desired.len() && (#[trigger] desired[d]).0 == rows[i].deployed_model_id
                && desired[d].1@ == rows[i].pool@ {
            let d = choose|d: int|
                0 <= d < desired.len() && (#[trigger] desired[d]).0 == rows[i].deployed_model_id
                    && desired[d].1@ == rows[i].pool@;
            assert(keys[d] == key);
        }
    }
}

/// A stored rule has its rule's purpose; a redirect points to its own target, and
/// a denial to none, and the two are told apart.
pub proof fn law_stored_rules_keep_their_rules(
    row: TrafficRuleRow,
    other: TrafficRuleRow,
    purpose: String,
    target: String,
    targets: Map<Seq<char>, u128>,
)
    requires
        stores_rule(row, TrafficRule::Redirect { purpose, target }, targets),
        stores_rule(other, TrafficRule::Deny { purpose }, targets),
    ensures
        row.purpose@ == purpose@,
        row.redirect_target_id == Some(targets[target@]),
        other.purpose@ == purpose@,
        other.redirect_target_id is None,
        row.action@ != other.action@,
{
    reveal_strlit("deny");
    reveal_strlit("redirect");
    assert("deny"@.len() == 4 && "redirect"@.len() == 8);
}

/// A declared model is written under the file that declares it, and a deployment
/// with the prices that it declares.
pub proof fn law_upserts_are_as_declared<'a, S, F, K>(
    d: DesiredModel<'a, S, F, K>,
    r: ModelUpsert<'a, S, F>,
    input: Option<Amount>,
    output: Option<Amount>,
)
    requires
        call_ensures(model_upsert::<S, F, K>, (&d,), r),
    ensures
        r.is_composite <==> d.physical is None,
        d.physical is Some ==> r.alias@ == (d.physical->0).alias@ && r.model_name@ == (
        d.physical->0).model_name@,
        d.physical is None ==> r.alias@ == d.clay.alias@,
        d.physical is None ==> r.pricing.mode is None && r.pricing.input is None
            && r.pricing.output is None && r.pricing.hourly is None,
        d.physical is Some && (d.physical->0).provider_pricing == Some(
            CatalogPricing::PerToken { input_per_token: input, output_per_token: output },
        ) ==> r.pricing.input == input && r.pricing.output == output && r.pricing.hourly is None,
        r.provisioning_source@.len() == 14 + d.source@.len(),
        r.provisioning_source@.skip(14) == d.source@,
{
    reveal_strlit("model-catalog:");
    assert(r.provisioning_source@.skip(14) =~= d.source@);
}

/// Access is granted to each declared group, in order, under its own identifier.
pub proof fn law_declared_groups_are_granted(
    declared: Vec<String>,
    groups: NameIds,
    r: Vec<u128>,
    i: int,
)
    requires
        call_ensures(group_grants, (&declared, &groups), r),
        0 <= i < declared@.len(),
    ensures
        r@.len() == declared@.len(),
        r@[i] == groups@[declared@[i]@],
{
    assert(texts(declared@).len() == declared@.len());
    assert(texts(declared@)[i] == declared@[i]@);
}

/// Names resolve exactly where each has an entry, and then to what their entries
/// say; otherwise the error names one that has none.
pub proof fn law_names_resolve_only_if_known(
    table: &str,
    requested: Vec<String>,
    found: Vec<(String, u128)>,
    r: Result<NameIds, String>,
)
    requires
        call_ensures(resolve_names, (table, &requested, found), r),
    ensures
        r is Ok <==> forall|i: int|
            0 <= i < requested@.len() ==> entries_map(found@).contains_key(
                #[trigger] requested@[i]@,
            ),
        r matches Ok(ids) ==> ids@ == entries_map(found@),
{
    let known = entries_map(found@).dom();
    let names = texts(requested@);
    let missing = not_among(names, known);
    if missing.len() == 0 {
        assert forall|i: int| 0 <= i < requested@.len() implies entries_map(found@).contains_key(
            #[trigger] requested@[i]@,
        ) by {
            crate::names::law_missing_names_are_unknown(names, known, names[i]);
            assert(names[i] == requested@[i]@);
        }
    } else {
        crate::names::law_missing_names_are_unknown(names, known, missing[0]);
        assert(missing.contains(missing[0]));
        let i = choose|i: int| 0 <= i < names.len() && names[i] == missing[0];
        assert(!entries_map(found@).contains_key(requested@[i]@));
    }
}

/// An alias that is there already must be the kind of model that is declared under
/// it.
pub proof fn law_existing_models_keep_their_kind(
    expected: Vec<(String, bool)>,
    alias: &str,
    is_composite: bool,
    r: Result<(), String>,
    other: Result<(), String>,
)
    requires
        call_ensures(check_existing_type, (&expected, alias, is_composite), r),
        call_ensures(check_existing_type, (&expected, alias, !is_composite), other),
        expected_type(alias_types(expected@), alias@) is Some,
    ensures
        r is Ok <==> other is Err,
        r is Ok <==> expected_type(alias_types(expected@), alias@) == Some(is_composite),
{
    let e = expected_type(alias_types(expected@), alias@)->0;
    assert(expected_type(alias_types(expected@), alias@) == Some(e));
    assert(e == is_composite || e == !is_composite);
}

/// Traffic rules are stored in order, each with its purpose, and a redirect with
/// the identifier of its target.
pub proof fn law_traffic_rules_are_stored_in_order(
    rules: Vec<TrafficRule>,
    targets: NameIds,
    r: Vec<TrafficRuleRow>,
    i: int,
)
    requires
        call_ensures(traffic_rule_rows, (&rules, &targets), r),
        0 <= i < rules@.len(),
    ensures
        r@.len() == rules@.len(),
        rules@[i] matches TrafficRule::Deny { purpose } ==> r@[i].purpose@ == purpose@
            && r@[i].redirect_target_id is None && r@[i].action@ == "deny"@,
        rules@[i] matches TrafficRule::Redirect { purpose, target } ==> r@[i].purpose@ == purpose@
            && r@[i].redirect_target_id == Some(targets@[target@]) && r@[i].action@ == "redirect"@,
{
    assert(stores_rule(r@[i], rules@[i], targets@));
}

/// Every endpoint, group and redirect target that a catalog declares is among the
/// names that are looked up, each once.
pub proof fn law_catalogs_name_everything_they_use<S, F, K>(
    catalog: Catalog<S, F, K>,
    endpoints: Vec<String>,
    groups: Vec<String>,
    targets: Vec<String>,
    m: int,
    i: int,
)
    requires
        call_ensures(endpoint_names::<S, F, K>, (&catalog,), endpoints),
        call_ensures(group_names::<S, F, K>, (&catalog,), groups),
        call_ensures(redirect_targets::<S, F, K>, (&catalog,), targets),
        0 <= m < catalog.models@.len(),
    ensures
        0 <= i < catalog.models@[m].clay.deployments@.len() ==> texts(endpoints@).contains(
            catalog.models@[m].clay.deployments@[i].endpoint@,
        ),
        0 <= i < catalog.models@[m].clay.access_groups@.len() ==> texts(groups@).contains(
            catalog.models@[m].clay.access_groups@[i]@,
        ),
        0 <= i < catalog.models@[m].clay.traffic_rules@.len() ==> (
        catalog.models@[m].clay.traffic_rules@[i] matches TrafficRule::Redirect { purpose, target }
            ==> texts(targets@).contains(target@)),
        texts(endpoints@).no_duplicates(),
        texts(groups@).no_duplicates(),
        texts(targets@).no_duplicates(),
{
    let n = catalog.models@.len() as int;
    law_every_name_is_looked_up(catalog.models@, n, m, i);
    crate::names::law_without_repeats(declared_endpoints(catalog.models@, n));
    crate::names::law_without_repeats(declared_groups(catalog.models@, n));
    crate::names::law_without_repeats(declared_targets(catalog.models@, n));
}

/// A run writes every deployment and every virtual model of a catalog, each
/// deployment before any virtual model, and nothing else.
pub proof fn law_runs_write_the_whole_catalog<S, F, K>(
    catalog: Catalog<S, F, K>,
    steps: Vec<ProvisioningStep>,
    m: int,
    d: int,
)
    requires
        call_ensures(provisioning_steps::<S, F, K>, (&catalog,), steps),
        0 <= m < catalog.models@.len(),
        0 <= d < catalog.models@[m].clay.deployments@.len(),
    ensures
        steps@.contains(ProvisioningStep::Physical { model: m as usize, deployment: d as usize }),
        steps@.contains(ProvisioningStep::Virtual { model: m as usize }),
        steps@.len() == deployments_of(catalog.models@, catalog.models@.len() as int)
            + catalog.models@.len(),
        forall|i: int, j: int|
            0 <= i < steps@.len() && 0 <= j < steps@.len() && (#[trigger] steps@[i]) is Physical
                && (#[trigger] steps@[j]) is Virtual ==> i < j,
{
    law_every_model_is_written(catalog.models@, m, d);
    assert forall|i: int, j: int|
        0 <= i < steps@.len() && 0 <= j < steps@.len() && (#[trigger] steps@[i]) is Physical && (
        #[trigger] steps@[j]) is Virtual implies i < j by {
        law_physical_models_come_first(catalog.models@, i, j);
    }
}

/// Exactly the component rows whose deployment and pool are not declared are
/// deleted, as long as no two rows share these or an identifier.
pub proof fn law_stale_components_are_undeclared(
    rows: Vec<ComponentRow>,
    desired: Vec<(u128, String)>,
    r: Vec<u128>,
    i: int,
)
    requires
        call_ensures(stale_components, (&rows, &desired), r),
        0 <= i < rows@.len(),
        forall|j: int|
            0 <= j < rows@.len() && j != i ==> (#[trigger] rows@[j]).id != rows@[i].id && !(
            rows@[j].deployed_model_id == rows@[i].deployed_model_id && rows@[j].pool@
                == rows@[i].pool@),
    ensures
        r@.contains(rows@[i].id) <==> forall|d: int|
            0 <= d < desired@.len() ==> (#[trigger] desired@[d]).0 != rows@[i].deployed_model_id
                || desired@[d].1@ != rows@[i].pool@,
{
    law_only_undeclared_components_are_deleted(rows@, desired@, i);
}

/// Merged targets are those that the run wrote, and only otherwise those that were
/// looked up.
pub proof fn law_merged_targets_prefer_the_run(
    resolved: NameIds,
    targets: Vec<String>,
    provisioned: NameIds,
    r: NameIds,
    i: int,
)
    requires
        call_ensures(merge_targets, (resolved, &targets, &provisioned), r),
        0 <= i < targets@.len(),
    ensures
        provisioned@.contains_key(targets@[i]@) ==> r@.contains_key(targets@[i]@)
            && r@[targets@[i]@] == provisioned@[targets@[i]@],
        !provisioned@.contains_key(targets@[i]@) && resolved@.contains_key(targets@[i]@)
            ==> r@.contains_key(targets@[i]@) && r@[targets@[i]@] == resolved@[targets@[i]@],
{
    let names = texts(targets@);
    assert(names.take(names.len() as int) =~= names);
    assert(names[i] == targets@[i]@);
    law_redirects_prefer_the_runs_own_models(
        resolved@,
        names,
        provisioned@,
        names.len() as int,
        names[i],
    );
}

/// The prices that are written are those that are declared, each in its own
/// column.
pub proof fn law_pricing_columns_are_as_declared(
    input: Option<Amount>,
    output: Option<Amount>,
    rate: Amount,
    ratio: Amount,
    tokens: PricingFields,
    hours: PricingFields,
    nothing: PricingFields,
)
    requires
        call_ensures(
            pricing_fields,
            (Some(
                CatalogPricing::PerToken { input_per_token: input, output_per_token: output },
            ),),
            tokens,
        ),
        call_ensures(
            pricing_fields,
            (Some(CatalogPricing::Hourly { rate, input_token_cost_ratio: ratio }),),
            hours,
        ),
        call_ensures(pricing_fields, (None,), nothing),
    ensures
        tokens.input == input,
        tokens.output == output,
        tokens.hourly is None,
        hours.hourly == Some(rate),
        hours.input_ratio == Some(ratio),
        hours.input is None,
        hours.output is None,
        nothing.mode is None,
        (tokens.mode->0)@ != (hours.mode->0)@,
{
    law_declared_prices_are_written(tokens, hours, nothing, input, output, rate, ratio);
}

/// The list of a catalog holds the alias of every virtual model as virtual, and that
/// of every deployment as physical.
pub proof fn law_expectations_name_every_alias<S, F, K>(
    catalog: Catalog<S, F, K>,
    r: Vec<(String, bool)>,
    m: int,
    d: int,
)
    requires
        call_ensures(expected_model_types::<S, F, K>, (&catalog,), r),
        0 <= m < catalog.models@.len(),
        0 <= d < catalog.models@[m].clay.deployments@.len(),
    ensures
        exists|i: int|
            0 <= i < r@.len() && (#[trigger] r@[i]).0@ == catalog.models@[m].clay.alias@ && r@[i].1,
        exists|i: int|
            0 <= i < r@.len() && (#[trigger] r@[i]).0@
                == catalog.models@[m].clay.deployments@[d].alias@ && !r@[i].1,
{
    law_every_alias_is_expected(catalog.models@, m, d);
    let list = alias_types(r@);
    assert(list.len() == r@.len());
    let a = choose|a: int|
        0 <= a < list.len() && list[a] == (catalog.models@[m].clay.alias@, true);
    let b = choose|b: int|
        0 <= b < list.len() && list[b] == (
            catalog.models@[m].clay.deployments@[d].alias@,
            false,
        );
    assert(list[a] == (r@[a].0@, r@[a].1));
    assert(list[b] == (r@[b].0@, r@[b].1));
}

}
