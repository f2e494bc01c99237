//! Deployed models: filters and their queries, rows, and updates.
//!
//! Rates and throughputs (`L`) are stored and carried through as they are.

use std::collections::HashMap;
use vstd::prelude::*;
use crate::amount::Amount;
use crate::errors::DbError;
use crate::grouping::{by_id, gives_values, group_by_id, groups, rows_map};
use crate::names::{borrowed, str_or_none, text_or_none, texts};
use crate::query::{flagged, flagged_text, like_pattern, search_pattern, Piece, SqlQuery};
use crate::text::{same_text, trim, trimmed};
use crate::time::Timestamp;

verus! {

/// What a model is for.
#[derive(Debug, Clone, Copy, PartialEq, Eq, Structural)]
pub enum ModelType {
    Chat,
    Embeddings,
    Reranker,
}

/// The name of a model type in the database.
pub open spec fn model_type_name(t: ModelType) -> Seq<char> {
    match t {
        ModelType::Chat => "CHAT"@,
        ModelType::Embeddings => "EMBEDDINGS"@,
        ModelType::Reranker => "RERANKER"@,
    }
}

/// The model type of a name in the database.
pub open spec fn named_model_type(name: Seq<char>) -> Option<ModelType> {
    if name == "CHAT"@ {
        Some(ModelType::Chat)
    } else if name == "EMBEDDINGS"@ {
        Some(ModelType::Embeddings)
    } else if name == "RERANKER"@ {
        Some(ModelType::Reranker)
    } else {
        None
    }
}

/// The model type of a name, as reads give it: they know no rerankers.
pub open spec fn read_model_type(name: Option<Seq<char>>) -> Option<ModelType> {
    match name {
        Some(n) => if named_model_type(n) == Some(ModelType::Reranker) {
            None
        } else {
            named_model_type(n)
        },
        None => None,
    }
}

/// The model type of a name, as writes give it back.
pub open spec fn written_model_type(name: Option<Seq<char>>) -> Option<ModelType> {
    match name {
        Some(n) => named_model_type(n),
        None => None,
    }
}

/// The name of a model type in the database.
pub fn model_type_to_string(t: &ModelType) -> (r: &'static str)
    ensures
        r@ == model_type_name(*t),
{
    match t {
        ModelType::Chat => "CHAT",
        ModelType::Embeddings => "EMBEDDINGS",
        ModelType::Reranker => "RERANKER",
    }
}

/// The model type of a name in the database.
pub fn parse_model_type(s: &str) -> (r: Option<ModelType>)
    ensures
        r == named_model_type(s@),
{
    if same_text(s, "CHAT") {
        Some(ModelType::Chat)
    } else if same_text(s, "EMBEDDINGS") {
        Some(ModelType::Embeddings)
    } else if same_text(s, "RERANKER") {
        Some(ModelType::Reranker)
    } else {
        None
    }
}

/// The model type of a row that was read.
pub fn model_type_on_read(name: &Option<String>) -> (r: Option<ModelType>)
    ensures
        r == read_model_type(text_or_none(*name)),
{
    match name {
        Some(n) => match parse_model_type(n.as_str()) {
            Some(ModelType::Reranker) => None,
            t => t,
        },
        None => None,
    }
}

/// The model type of a row that was just written.
pub fn model_type_on_write(name: &Option<String>) -> (r: Option<ModelType>)
    ensures
        r == written_model_type(text_or_none(*name)),
{
    match name {
        Some(n) => parse_model_type(n.as_str()),
        None => None,
    }
}

/// A model type is the type of its own name, and of no other type's name.
pub proof fn law_model_type_reads_back(t: ModelType)
    ensures
        named_model_type(model_type_name(t)) == Some(t),
{
    reveal_strlit("CHAT");
    reveal_strlit("EMBEDDINGS");
    reveal_strlit("RERANKER");
    assert("CHAT"@.len() == 4 && "EMBEDDINGS"@.len() == 10 && "RERANKER"@.len() == 8);
}

/// How a composite model picks a component.
#[derive(Debug, Clone, Copy, PartialEq, Eq, Structural)]
pub enum LoadBalancingStrategy {
    WeightedRandom,
    Priority,
}

impl LoadBalancingStrategy {
    /// The strategy's name in the database.
    pub open spec fn name(self) -> Seq<char> {
        match self {
            LoadBalancingStrategy::WeightedRandom => "weighted_random"@,
            LoadBalancingStrategy::Priority => "priority"@,
        }
    }

    /// The strategy of a name in the database; weighted where there is none or
    /// it is unknown.
    pub open spec fn of_name(name: Option<Seq<char>>) -> LoadBalancingStrategy {
        if name == Some("priority"@) {
            LoadBalancingStrategy::Priority
        } else {
            LoadBalancingStrategy::WeightedRandom
        }
    }

    /// The strategy's name in the database.
    pub fn as_str(self) -> (r: &'static str)
        ensures
            r@ == self.name(),
    {
        match self {
            LoadBalancingStrategy::WeightedRandom => "weighted_random",
            LoadBalancingStrategy::Priority => "priority",
        }
    }

    /// The strategy of a name in the database, or the default.
    pub fn parse_or_default(name: &Option<String>) -> (r: LoadBalancingStrategy)
        ensures
            r == LoadBalancingStrategy::of_name(text_or_none(*name)),
    {
        match name {
            Some(n) => {
                if same_text(n.as_str(), "priority") {
                    LoadBalancingStrategy::Priority
                } else {
                    LoadBalancingStrategy::WeightedRandom
                }
            },
            None => LoadBalancingStrategy::WeightedRandom,
        }
    }
}

/// A model's status, by its name in the database.
#[derive(Debug)]
pub struct ModelStatus {
    pub name: String,
}

/// What a list of deployments is narrowed to. A filter that is absent narrows
/// nothing.
#[derive(Debug)]
pub struct DeploymentFilter {
    pub skip: i64,
    pub limit: i64,
    pub endpoint_id: Option<u128>,
    pub statuses: Option<Vec<ModelStatus>>,
    pub deleted: Option<bool>,
    /// A user who must have access.
    pub accessible_to: Option<u128>,
    /// Groups of which the model must be in one.
    pub group_ids: Option<Vec<u128>>,
    pub aliases: Option<Vec<String>>,
    /// Text to find in alias, model name or endpoint name.
    pub search: Option<String>,
    pub is_composite: Option<bool>,
}

impl DeploymentFilter {
    /// A page of all deployments.
    pub fn new(skip: i64, limit: i64) -> (r: DeploymentFilter)
        ensures
            r == (DeploymentFilter {
                skip,
                limit,
                endpoint_id: None,
                statuses: None,
                deleted: None,
                accessible_to: None,
                group_ids: None,
                aliases: None,
                search: None,
                is_composite: None,
            }),
    {
        DeploymentFilter {
            skip,
            limit,
            endpoint_id: None,
            statuses: None,
            deleted: None,
            accessible_to: None,
            group_ids: None,
            aliases: None,
            search: None,
            is_composite: None,
        }
    }

    /// Narrows to an endpoint.
    pub fn with_endpoint(self, endpoint_id: u128) -> (r: DeploymentFilter)
        ensures
            r == (DeploymentFilter { endpoint_id: Some(endpoint_id), ..self }),
    {
        let mut filter = self;
        filter.endpoint_id = Some(endpoint_id);
        filter
    }

    /// Narrows to deleted models, or to others.
    pub fn with_deleted(self, deleted: bool) -> (r: DeploymentFilter)
        ensures
            r == (DeploymentFilter { deleted: Some(deleted), ..self }),
    {
        let mut filter = self;
        filter.deleted = Some(deleted);
        filter
    }

    /// Narrows to what a user has access to.
    pub fn with_accessible_to(self, user_id: u128) -> (r: DeploymentFilter)
        ensures
            r == (DeploymentFilter { accessible_to: Some(user_id), ..self }),
    {
        let mut filter = self;
        filter.accessible_to = Some(user_id);
        filter
    }

    /// Narrows to models in any of these groups.
    pub fn with_groups(self, group_ids: Vec<u128>) -> (r: DeploymentFilter)
        ensures
            r == (DeploymentFilter { group_ids: Some(group_ids), ..self }),
    {
        let mut filter = self;
        filter.group_ids = Some(group_ids);
        filter
    }

    /// Narrows to models with any of these statuses.
    pub fn with_statuses(self, statuses: Vec<ModelStatus>) -> (r: DeploymentFilter)
        ensures
            r == (DeploymentFilter { statuses: Some(statuses), ..self }),
    {
        let mut filter = self;
        filter.statuses = Some(statuses);
        filter
    }

    /// Narrows to models with any of these aliases.
    pub fn with_aliases(self, aliases: Vec<String>) -> (r: DeploymentFilter)
        ensures
            r == (DeploymentFilter { aliases: Some(aliases), ..self }),
    {
        let mut filter = self;
        filter.aliases = Some(aliases);
        filter
    }

    /// Narrows to models in which a text is found.
    pub fn with_search(self, search: String) -> (r: DeploymentFilter)
        ensures
            r == (DeploymentFilter { search: Some(search), ..self }),
    {
        let mut filter = self;
        filter.search = Some(search);
        filter
    }

    /// Narrows to composite models, or to others.
    pub fn with_composite(self, is_composite: bool) -> (r: DeploymentFilter)
        ensures
            r == (DeploymentFilter { is_composite: Some(is_composite), ..self }),
    {
        let mut filter = self;
        filter.is_composite = Some(is_composite);
        filter
    }
}

/// The names of statuses.
pub open spec fn status_names(statuses: Seq<ModelStatus>) -> Seq<Seq<char>> {
    statuses.map_values(|s: ModelStatus| s.name@)
}

/// The clause for an endpoint.
pub open spec fn endpoint_clause(f: DeploymentFilter) -> Seq<Piece> {
    match f.endpoint_id {
        Some(id) => seq![Piece::Text(" AND dm.hosted_on = "@), Piece::Id(id)],
        None => Seq::empty(),
    }
}

/// The clause for statuses.
pub open spec fn status_clause(f: DeploymentFilter) -> Seq<Piece> {
    match f.statuses {
        Some(statuses) => seq![
            Piece::Text(" AND dm.status = ANY("@),
            Piece::Values(status_names(statuses@)),
            Piece::Text(")"@),
        ],
        None => Seq::empty(),
    }
}

/// The clause for deleted models.
pub open spec fn deleted_clause(f: DeploymentFilter) -> Seq<Piece> {
    match f.deleted {
        Some(deleted) => seq![Piece::Text(" AND dm.deleted = "@), Piece::Bool(deleted)],
        None => Seq::empty(),
    }
}

/// The clause for aliases; an empty list narrows nothing.
pub open spec fn alias_clause(f: DeploymentFilter) -> Seq<Piece> {
    match f.aliases {
        Some(aliases) => if aliases@.len() > 0 {
            seq![
                Piece::Text(" AND dm.alias = ANY("@),
                Piece::Values(texts(aliases@)),
                Piece::Text(")"@),
            ]
        } else {
            Seq::empty()
        },
        None => Seq::empty(),
    }
}

/// The clause for a user's access: through the user's groups, and through the
/// group of everyone but the system user.
pub open spec fn access_clause(f: DeploymentFilter) -> Seq<Piece> {
    match f.accessible_to {
        Some(user) => seq![
            Piece::Text(" AND dm.id IN ("@),
            Piece::Text(
                "SELECT dg.deployment_id FROM deployment_groups dg WHERE dg.group_id IN ("@,
            ),
            Piece::Text("SELECT ug.group_id FROM user_groups ug WHERE ug.user_id = "@),
            Piece::Id(user),
            Piece::Text(
                " UNION SELECT '00000000-0000-0000-0000-000000000000'::uuid WHERE "@,
            ),
            Piece::Id(user),
            Piece::Text(" != '00000000-0000-0000-0000-000000000000'::uuid"@),
            Piece::Text("))"@),
        ],
        None => Seq::empty(),
    }
}

/// The clause for groups; an empty list narrows nothing.
pub open spec fn group_clause(f: DeploymentFilter) -> Seq<Piece> {
    match f.group_ids {
        Some(ids) => if ids@.len() > 0 {
            seq![
                Piece::Text(" AND dm.id IN ("@),
                Piece::Text(
                    "SELECT dg.deployment_id FROM deployment_groups dg WHERE dg.group_id = ANY("@,
                ),
                Piece::Ids(ids@),
                Piece::Text("))"@),
            ]
        } else {
            Seq::empty()
        },
        None => Seq::empty(),
    }
}

/// The clause for a search.
pub open spec fn search_clause(f: DeploymentFilter) -> Seq<Piece> {
    match f.search {
        Some(search) => seq![
            Piece::Text(" AND (LOWER(dm.alias) LIKE "@),
            Piece::Value(like_pattern(search@)),
            Piece::Text(" OR LOWER(dm.model_name) LIKE "@),
            Piece::Value(like_pattern(search@)),
            Piece::Text(" OR LOWER(ie.name) LIKE "@),
            Piece::Value(like_pattern(search@)),
            Piece::Text(")"@),
        ],
        None => Seq::empty(),
    }
}

/// The clause for composite models.
pub open spec fn composite_clause(f: DeploymentFilter) -> Seq<Piece> {
    match f.is_composite {
        Some(b) => seq![Piece::Text(" AND dm.is_composite = "@), Piece::Bool(b)],
        None => Seq::empty(),
    }
}

/// Everything that a filter narrows to. The page is no part of it.
pub open spec fn deployment_clauses(f: DeploymentFilter) -> Seq<Piece> {
    endpoint_clause(f) + status_clause(f) + deleted_clause(f) + alias_clause(f) + access_clause(f)
        + group_clause(f) + search_clause(f) + composite_clause(f)
}

/// The pieces that order a list and take a page of it.
pub open spec fn page_clause(limit: i64, skip: i64) -> Seq<Piece> {
    seq![
        Piece::Text(" ORDER BY created_at DESC LIMIT "@),
        Piece::Int(limit),
        Piece::Text(" OFFSET "@),
        Piece::Int(skip),
    ]
}

/// The start of the list query.
pub open spec fn list_head() -> Piece {
    Piece::Text(
        "SELECT dm.* FROM deployed_models dm LEFT JOIN inference_endpoints ie ON dm.hosted_on = ie.id WHERE 1=1"@,
    )
}

/// The start of the count query.
pub open spec fn count_head() -> Piece {
    Piece::Text(
        "SELECT COUNT(*) FROM deployed_models dm LEFT JOIN inference_endpoints ie ON dm.hosted_on = ie.id WHERE 1=1"@,
    )
}

fn copy_status_names(statuses: &Vec<ModelStatus>) -> (r: Vec<String>)
    ensures
        texts(r@) == status_names(statuses@),
{
    let mut out: Vec<String> = Vec::new();
    let mut i: usize = 0;
    while i < statuses.len()
        invariant
            i <= statuses@.len(),
            out@.len() == i,
            forall|j: int| 0 <= j < i ==> (#[trigger] out@[j])@ == statuses@[j].name@,
        decreases statuses@.len() - i,
    {
        out.push(statuses[i].name.clone());
        i = i + 1;
    }
    assert(texts(out@) =~= status_names(statuses@));
    out
}

fn push_endpoint_status_deleted(query: &mut SqlQuery, f: &DeploymentFilter)
    ensures
        final(query)@ == old(query)@ + endpoint_clause(*f) + status_clause(*f) + deleted_clause(*f),
{
    if let Some(endpoint_id) = f.endpoint_id {
        query.push(" AND dm.hosted_on = ");
        query.bind_id(endpoint_id);
    }
    assert(query@ =~= old(query)@ + endpoint_clause(*f));
    if let Some(statuses) = &f.statuses {
        query.push(" AND dm.status = ANY(");
        query.bind_texts(&copy_status_names(statuses));
        query.push(")");
    }
    assert(query@ =~= old(query)@ + endpoint_clause(*f) + status_clause(*f));
    if let Some(deleted) = f.deleted {
        query.push(" AND dm.deleted = ");
        query.bind_bool(deleted);
    }
    assert(query@ =~= old(query)@ + endpoint_clause(*f) + status_clause(*f) + deleted_clause(*f));
}

fn push_alias_access(query: &mut SqlQuery, f: &DeploymentFilter)
    ensures
        final(query)@ == old(query)@ + alias_clause(*f) + access_clause(*f),
{
    if let Some(aliases) = &f.aliases {
        if aliases.len() > 0 {
            query.push(" AND dm.alias = ANY(");
            query.bind_texts(aliases);
            query.push(")");
        }
    }
    assert(query@ =~= old(query)@ + alias_clause(*f));
    if let Some(user_id) = f.accessible_to {
        query.push(" AND dm.id IN (");
        query.push("SELECT dg.deployment_id FROM deployment_groups dg WHERE dg.group_id IN (");
        query.push("SELECT ug.group_id FROM user_groups ug WHERE ug.user_id = ");
        query.bind_id(user_id);
        query.push(" UNION SELECT '00000000-0000-0000-0000-000000000000'::uuid WHERE ");
        query.bind_id(user_id);
        query.push(" != '00000000-0000-0000-0000-000000000000'::uuid");
        query.push("))");
    }
    assert(query@ =~= old(query)@ + alias_clause(*f) + access_clause(*f));
}

fn push_group_search_composite(query: &mut SqlQuery, f: &DeploymentFilter)
    ensures
        final(query)@ == old(query)@ + group_clause(*f) + search_clause(*f) + composite_clause(*f),
{
    if let Some(group_ids) = &f.group_ids {
        if group_ids.len() > 0 {
            query.push(" AND dm.id IN (");
            query.push("SELECT dg.deployment_id FROM deployment_groups dg WHERE dg.group_id = ANY(");
            query.bind_ids(group_ids);
            query.push("))");
        }
    }
    assert(query@ =~= old(query)@ + group_clause(*f));
    if let Some(search) = &f.search {
        let pattern = search_pattern(search.as_str());
        query.push(" AND (LOWER(dm.alias) LIKE ");
        query.bind_text(pattern.as_str());
        query.push(" OR LOWER(dm.model_name) LIKE ");
        query.bind_text(pattern.as_str());
        query.push(" OR LOWER(ie.name) LIKE ");
        query.bind_text(pattern.as_str());
        query.push(")");
    }
    assert(query@ =~= old(query)@ + group_clause(*f) + search_clause(*f));
    if let Some(is_composite) = f.is_composite {
        query.push(" AND dm.is_composite = ");
        query.bind_bool(is_composite);
    }
    assert(query@ =~= old(query)@ + group_clause(*f) + search_clause(*f) + composite_clause(*f));
}

fn push_clauses(query: &mut SqlQuery, f: &DeploymentFilter)
    ensures
        final(query)@ == old(query)@ + deployment_clauses(*f),
{
    push_endpoint_status_deleted(query, f);
    push_alias_access(query, f);
    push_group_search_composite(query, f);
    assert(query@ =~= old(query)@ + deployment_clauses(*f));
}

/// The query for a page of deployments.
pub fn list_query(filter: &DeploymentFilter) -> (r: SqlQuery)
    ensures
        r@ == seq![list_head()] + deployment_clauses(*filter) + page_clause(
            filter.limit,
            filter.skip,
        ),
{
    let mut query = SqlQuery::new(
        "SELECT dm.* FROM deployed_models dm LEFT JOIN inference_endpoints ie ON dm.hosted_on = ie.id WHERE 1=1",
    );
    push_clauses(&mut query, filter);
    query.push(" ORDER BY created_at DESC LIMIT ");
    query.bind_int(filter.limit);
    query.push(" OFFSET ");
    query.bind_int(filter.skip);
    assert(query@ =~= seq![list_head()] + deployment_clauses(*filter) + page_clause(
        filter.limit,
        filter.skip,
    ));
    query
}

/// The query for the number of deployments.
pub fn count_query(filter: &DeploymentFilter) -> (r: SqlQuery)
    ensures
        r@ == seq![count_head()] + deployment_clauses(*filter),
{
    let mut query = SqlQuery::new(
        "SELECT COUNT(*) FROM deployed_models dm LEFT JOIN inference_endpoints ie ON dm.hosted_on = ie.id WHERE 1=1",
    );
    push_clauses(&mut query, filter);
    query
}

/// A count counts what all pages of the list hold together: it narrows to the
/// same, whatever the page.
pub proof fn law_count_ignores_the_page(f: DeploymentFilter, g: DeploymentFilter)
    requires
        g == (DeploymentFilter { skip: g.skip, limit: g.limit, ..f }),
    ensures
        deployment_clauses(f) == deployment_clauses(g),
{
}

/// A filter that narrows nothing has no clause.
pub proof fn law_new_filter_narrows_nothing(f: DeploymentFilter)
    requires
        f == (DeploymentFilter {
            skip: f.skip,
            limit: f.limit,
            endpoint_id: None,
            statuses: None,
            deleted: None,
            accessible_to: None,
            group_ids: None,
            aliases: None,
            search: None,
            is_composite: None,
        }),
    ensures
        deployment_clauses(f) == Seq::<Piece>::empty(),
{
    assert(deployment_clauses(f) =~= Seq::<Piece>::empty());
}

/// That a user may use a deployment, with what it takes to do so.
#[derive(Debug, Clone)]
pub struct DeploymentAccessInfo {
    pub deployment_id: u128,
    pub deployment_alias: String,
    pub system_api_key: String,
}

/// The pricing columns of a deployment.
#[derive(Debug)]
pub struct ProviderPricingFields {
    pub mode: Option<String>,
    pub input_price_per_token: Option<Amount>,
    pub output_price_per_token: Option<Amount>,
    pub hourly_rate: Option<Amount>,
    pub input_token_cost_ratio: Option<Amount>,
}

/// A deployment as stored.
#[derive(Debug)]
pub struct DeployedModel<L> {
    pub id: u128,
    pub model_name: String,
    pub alias: String,
    pub description: Option<String>,
    pub model_type: Option<String>,
    pub capabilities: Option<Vec<String>>,
    pub created_by: u128,
    pub hosted_on: Option<u128>,
    pub status: String,
    pub last_sync: Option<Timestamp>,
    pub deleted: bool,
    pub created_at: Timestamp,
    pub updated_at: Timestamp,
    pub requests_per_second: Option<L>,
    pub burst_size: Option<i32>,
    pub capacity: Option<i32>,
    pub batch_capacity: Option<i32>,
    pub throughput: Option<L>,
    pub downstream_pricing: ProviderPricingFields,
    pub is_composite: bool,
    pub lb_strategy: Option<String>,
    pub fallback_enabled: Option<bool>,
    pub fallback_on_rate_limit: Option<bool>,
    pub fallback_on_status: Option<Vec<i32>>,
    pub fallback_with_replacement: Option<bool>,
    pub fallback_max_attempts: Option<i32>,
    pub sanitize_responses: bool,
    pub trusted: bool,
    pub open_responses_adapter: Option<bool>,
}

/// A deployment as handed out.
#[derive(Debug)]
pub struct DeploymentDBResponse<L> {
    pub id: u128,
    pub model_name: String,
    pub alias: String,
    pub description: Option<String>,
    pub model_type: Option<ModelType>,
    pub capabilities: Option<Vec<String>>,
    pub created_by: u128,
    pub hosted_on: Option<u128>,
    pub status: ModelStatus,
    pub last_sync: Option<Timestamp>,
    pub deleted: bool,
    pub created_at: Timestamp,
    pub updated_at: Timestamp,
    pub requests_per_second: Option<L>,
    pub burst_size: Option<i32>,
    pub capacity: Option<i32>,
    pub batch_capacity: Option<i32>,
    pub throughput: Option<L>,
    pub provider_pricing: ProviderPricingFields,
    pub is_composite: bool,
    pub lb_strategy: LoadBalancingStrategy,
    pub fallback_enabled: bool,
    pub fallback_on_rate_limit: bool,
    pub fallback_on_status: Vec<i32>,
    pub fallback_with_replacement: bool,
    pub fallback_max_attempts: Option<i32>,
    pub sanitize_responses: bool,
    pub trusted: bool,
    pub open_responses_adapter: bool,
}

/// The statuses on which a request falls back, where none are stored.
pub open spec fn default_fallback_statuses() -> Seq<i32> {
    seq![429, 500, 502, 503, 504]
}

/// The statuses on which a request falls back.
pub fn fallback_statuses(stored: Option<Vec<i32>>) -> (r: Vec<i32>)
    ensures
        r@ == (match stored {
            Some(codes) => codes@,
            None => default_fallback_statuses(),
        }),
{
    match stored {
        Some(codes) => codes,
        None => {
            let codes: Vec<i32> = vec![429, 500, 502, 503, 504];
            assert(codes@ =~= default_fallback_statuses());
            codes
        },
    }
}

/// A truth value, or a default where there is none.
pub open spec fn flag_or(flag: Option<bool>, default: bool) -> bool {
    match flag {
        Some(b) => b,
        None => default,
    }
}

/// Whether a response is that of a stored deployment.
pub open spec fn is_response_of<L>(
    r: DeploymentDBResponse<L>,
    m: DeployedModel<L>,
    model_type: Option<ModelType>,
) -> bool {
    &&& r.id == m.id
    &&& r.model_name == m.model_name
    &&& r.alias == m.alias
    &&& r.description == m.description
    &&& r.model_type == model_type
    &&& r.capabilities == m.capabilities
    &&& r.created_by == m.created_by
    &&& r.hosted_on == m.hosted_on
    &&& r.status.name == m.status
    &&& r.last_sync == m.last_sync
    &&& r.deleted == m.deleted
    &&& r.created_at == m.created_at
    &&& r.updated_at == m.updated_at
    &&& r.requests_per_second == m.requests_per_second
    &&& r.burst_size == m.burst_size
    &&& r.capacity == m.capacity
    &&& r.batch_capacity == m.batch_capacity
    &&& r.throughput == m.throughput
    &&& r.provider_pricing == m.downstream_pricing
    &&& r.is_composite == m.is_composite
    &&& r.lb_strategy == LoadBalancingStrategy::of_name(text_or_none(m.lb_strategy))
    &&& r.fallback_enabled == flag_or(m.fallback_enabled, true)
    &&& r.fallback_on_rate_limit == flag_or(m.fallback_on_rate_limit, true)
    &&& r.fallback_on_status@ == (match m.fallback_on_status {
        Some(codes) => codes@,
        None => default_fallback_statuses(),
    })
    &&& r.fallback_with_replacement == flag_or(m.fallback_with_replacement, false)
    &&& r.fallback_max_attempts == m.fallback_max_attempts
    &&& r.sanitize_responses == m.sanitize_responses
    &&& r.trusted == m.trusted
    &&& r.open_responses_adapter == flag_or(m.open_responses_adapter, true)
}

/// A truth value, or a default where there is none.
pub(crate) fn or_default(flag: Option<bool>, default: bool) -> (r: bool)
    ensures
        r == flag_or(flag, default),
{
    match flag {
        Some(b) => b,
        None => default,
    }
}

/// A stored deployment as handed out: fallback is on unless switched off, and
/// the responses adapter too.
pub fn deployment_response<L>(model_type: Option<ModelType>, m: DeployedModel<L>) -> (r:
    DeploymentDBResponse<L>)
    ensures
        is_response_of(r, m, model_type),
{
    let lb_strategy = LoadBalancingStrategy::parse_or_default(&m.lb_strategy);
    DeploymentDBResponse {
        id: m.id,
        model_name: m.model_name,
        alias: m.alias,
        description: m.description,
        model_type,
        capabilities: m.capabilities,
        created_by: m.created_by,
        hosted_on: m.hosted_on,
        status: ModelStatus { name: m.status },
        last_sync: m.last_sync,
        deleted: m.deleted,
        created_at: m.created_at,
        updated_at: m.updated_at,
        requests_per_second: m.requests_per_second,
        burst_size: m.burst_size,
        capacity: m.capacity,
        batch_capacity: m.batch_capacity,
        throughput: m.throughput,
        provider_pricing: m.downstream_pricing,
        is_composite: m.is_composite,
        lb_strategy,
        fallback_enabled: or_default(m.fallback_enabled, true),
        fallback_on_rate_limit: or_default(m.fallback_on_rate_limit, true),
        fallback_on_status: fallback_statuses(m.fallback_on_status),
        fallback_with_replacement: or_default(m.fallback_with_replacement, false),
        fallback_max_attempts: m.fallback_max_attempts,
        sanitize_responses: m.sanitize_responses,
        trusted: m.trusted,
        open_responses_adapter: or_default(m.open_responses_adapter, true),
    }
}

/// Whether a response is that of a deployment that was just written.
pub open spec fn is_written<L>(r: DeploymentDBResponse<L>, m: DeployedModel<L>) -> bool {
    is_response_of(r, m, written_model_type(text_or_none(m.model_type)))
}

/// Whether a response is that of a deployment that was read.
pub open spec fn is_read<L>(r: DeploymentDBResponse<L>, m: DeployedModel<L>) -> bool {
    is_response_of(r, m, read_model_type(text_or_none(m.model_type)))
}

/// A deployment that was just created or updated, as handed out.
pub fn written_deployment<L>(m: DeployedModel<L>) -> (r: DeploymentDBResponse<L>)
    ensures
        is_written(r, m),
{
    let model_type = model_type_on_write(&m.model_type);
    deployment_response(model_type, m)
}

/// A deployment that was read, as handed out.
pub fn read_deployment<L>(m: DeployedModel<L>) -> (r: DeploymentDBResponse<L>)
    ensures
        is_read(r, m),
{
    let model_type = model_type_on_read(&m.model_type);
    deployment_response(model_type, m)
}

/// Deployments that were read, as handed out, in order.
pub fn read_deployments<L>(models: Vec<DeployedModel<L>>) -> (r: Vec<DeploymentDBResponse<L>>)
    ensures
        r@.len() == models@.len(),
        forall|i: int| 0 <= i < r@.len() ==> is_read(#[trigger] r@[i], models@[i]),
{
    let ghost all = models@;
    let mut out: Vec<DeploymentDBResponse<L>> = Vec::new();
    for m in it: models
        invariant
            it.seq() == all,
            out@.len() == it.index(),
            forall|j: int| 0 <= j < it.index() ==> is_read(#[trigger] out@[j], all[j]),
    {
        out.push(read_deployment(m));
    }
    out
}

/// Deployments that were read, by identifier; of several with one identifier the
/// last stays.
pub fn deployments_by_id<L>(models: Vec<DeployedModel<L>>) -> (r: HashMap<
    u128,
    DeploymentDBResponse<L>,
>)
    ensures
        exists|rows: Seq<(u128, DeploymentDBResponse<L>)>|
            rows.len() == models@.len() && r@ == #[trigger] rows_map(rows, rows.len() as int)
                && forall|i: int|
                0 <= i < rows.len() ==> (#[trigger] rows[i]).0 == models@[i].id && is_read(
                    rows[i].1,
                    models@[i],
                ),
{
    let ghost all = models@;
    let mut rows: Vec<(u128, DeploymentDBResponse<L>)> = Vec::new();
    for m in it: models
        invariant
            it.seq() == all,
            rows@.len() == it.index(),
            forall|j: int|
                0 <= j < it.index() ==> (#[trigger] rows@[j]).0 == all[j].id && is_read(
                    rows@[j].1,
                    all[j],
                ),
    {
        let id: u128 = m.id;
        rows.push((id, read_deployment(m)));
    }
    let ghost listed = rows@;
    let r = by_id(rows);
    assert(r@ == rows_map(listed, listed.len() as int));
    r
}

/// Whether a name is blank once trimmed.
pub open spec fn is_blank(name: Seq<char>) -> bool {
    trimmed(name).len() == 0
}

fn invalid_field<T>(field: &'static str) -> (r: Result<T, DbError>)
    ensures
        r matches Err(DbError::InvalidModelField { field: f }) && f@ == field@,
{
    Err(DbError::InvalidModelField { field })
}

/// Whether a result says that a field is invalid.
pub open spec fn rejects_field<T>(r: Result<T, DbError>, field: Seq<char>) -> bool {
    r matches Err(DbError::InvalidModelField { field: f }) && f@ == field
}

/// The name and alias of a new deployment, trimmed. Neither may be blank.
pub fn checked_names(model_name: &str, alias: &str) -> (r: Result<(String, String), DbError>)
    ensures
        if is_blank(model_name@) {
            rejects_field(r, "model_name"@)
        } else if is_blank(alias@) {
            rejects_field(r, "alias"@)
        } else {
            r matches Ok((n, a)) && n@ == trimmed(model_name@) && a@ == trimmed(alias@)
        },
{
    let name = trim(model_name);
    let trimmed_alias = trim(alias);
    if name.as_str().is_empty() {
        return invalid_field("model_name");
    }
    if trimmed_alias.as_str().is_empty() {
        return invalid_field("alias");
    }
    Ok((name, trimmed_alias))
}

/// The alias of a model, trimmed; it may not be blank.
pub fn checked_alias(alias: &str) -> (r: Result<String, DbError>)
    ensures
        if is_blank(alias@) {
            rejects_field(r, "alias"@)
        } else {
            r matches Ok(a) && a@ == trimmed(alias@)
        },
{
    let a = trim(alias);
    if a.as_str().is_empty() {
        return invalid_field("alias");
    }
    Ok(a)
}

/// The trimmed form of an optional name.
pub open spec fn trimmed_or_none(name: Option<Seq<char>>) -> Option<Seq<char>> {
    match name {
        Some(n) => Some(trimmed(n)),
        None => None,
    }
}

fn trim_optional(name: &Option<String>) -> (r: Option<String>)
    ensures
        text_or_none(r) == trimmed_or_none(text_or_none(*name)),
{
    match name {
        Some(n) => Some(trim(n.as_str())),
        None => None,
    }
}

/// Whether an optional name is given and blank.
pub open spec fn is_given_blank(name: Option<Seq<char>>) -> bool {
    name matches Some(n) && is_blank(n)
}

/// The new name and alias of an update, trimmed. Neither may be blank where it
/// is given.
pub fn checked_new_names(model_name: &Option<String>, alias: &Option<String>) -> (r: Result<
    (Option<String>, Option<String>),
    DbError,
>)
    ensures
        if is_given_blank(text_or_none(*model_name)) {
            rejects_field(r, "model_name"@)
        } else if is_given_blank(text_or_none(*alias)) {
            rejects_field(r, "alias"@)
        } else {
            r matches Ok((n, a)) && text_or_none(n) == trimmed_or_none(text_or_none(*model_name))
                && text_or_none(a) == trimmed_or_none(text_or_none(*alias))
        },
{
    let name = trim_optional(model_name);
    let new_alias = trim_optional(alias);
    if let Some(n) = &name {
        if n.as_str().is_empty() {
            return invalid_field("model_name");
        }
    }
    if let Some(a) = &new_alias {
        if a.as_str().is_empty() {
            return invalid_field("alias");
        }
    }
    Ok((name, new_alias))
}

/// What a new deployment is created with.
#[derive(Debug)]
pub struct DeploymentCreateDBRequest<L> {
    pub created_by: u128,
    pub model_name: String,
    pub alias: String,
    pub description: Option<String>,
    pub model_type: Option<ModelType>,
    pub capabilities: Option<Vec<String>>,
    pub hosted_on: Option<u128>,
    pub requests_per_second: Option<L>,
    pub burst_size: Option<i32>,
    pub capacity: Option<i32>,
    pub batch_capacity: Option<i32>,
    pub throughput: Option<L>,
    pub provider_pricing: Option<ProviderPricingFields>,
    pub is_composite: bool,
    pub lb_strategy: Option<LoadBalancingStrategy>,
    pub fallback_enabled: Option<bool>,
    pub fallback_on_rate_limit: Option<bool>,
    pub fallback_on_status: Option<Vec<i32>>,
    pub fallback_with_replacement: Option<bool>,
    pub fallback_max_attempts: Option<i32>,
    pub sanitize_responses: bool,
    pub trusted: bool,
    pub open_responses_adapter: bool,
}

/// The columns of a new deployment that are not stored as they are given.
#[derive(Debug)]
pub struct CreateColumns {
    pub model_name: String,
    pub alias: String,
    pub model_type: Option<&'static str>,
    pub lb_strategy: Option<&'static str>,
    pub open_responses_adapter: Option<bool>,
}

/// The name of an optional model type.
pub open spec fn type_name_or_none(t: Option<ModelType>) -> Option<Seq<char>> {
    match t {
        Some(m) => Some(model_type_name(m)),
        None => None,
    }
}

/// The name of an optional strategy.
pub open spec fn strategy_name_or_none(s: Option<LoadBalancingStrategy>) -> Option<Seq<char>> {
    match s {
        Some(l) => Some(l.name()),
        None => None,
    }
}

/// The name of an optional model type.
pub fn optional_type_name(t: Option<ModelType>) -> (r: Option<&'static str>)
    ensures
        str_or_none(r) == type_name_or_none(t),
{
    match t {
        Some(m) => Some(model_type_to_string(&m)),
        None => None,
    }
}

/// The name of an optional strategy.
pub fn optional_strategy_name(s: Option<LoadBalancingStrategy>) -> (r: Option<&'static str>)
    ensures
        str_or_none(r) == strategy_name_or_none(s),
{
    match s {
        Some(l) => Some(l.as_str()),
        None => None,
    }
}

/// The columns of a new deployment, or what is wrong with its names.
pub fn create_columns<L>(request: &DeploymentCreateDBRequest<L>) -> (r: Result<
    CreateColumns,
    DbError,
>)
    ensures
        if is_blank(request.model_name@) {
            rejects_field(r, "model_name"@)
        } else if is_blank(request.alias@) {
            rejects_field(r, "alias"@)
        } else {
            r matches Ok(c) && c.model_name@ == trimmed(request.model_name@) && c.alias@ == trimmed(
                request.alias@,
            ) && str_or_none(c.model_type) == type_name_or_none(request.model_type) && str_or_none(
                c.lb_strategy,
            ) == strategy_name_or_none(request.lb_strategy) && c.open_responses_adapter == Some(
                request.open_responses_adapter,
            )
        },
{
    match checked_names(request.model_name.as_str(), request.alias.as_str()) {
        Ok((model_name, alias)) => Ok(
            CreateColumns {
                model_name,
                alias,
                model_type: optional_type_name(request.model_type),
                lb_strategy: optional_strategy_name(request.lb_strategy),
                open_responses_adapter: Some(request.open_responses_adapter),
            },
        ),
        Err(e) => Err(e),
    }
}

/// A change of the pricing columns, each with a flag that says whether it is
/// meant.
#[derive(Debug)]
pub struct PricingUpdateParams {
    pub should_update_mode: bool,
    pub mode: Option<String>,
    pub should_update_input: bool,
    pub input: Option<Amount>,
    pub should_update_output: bool,
    pub output: Option<Amount>,
    pub should_update_hourly: bool,
    pub hourly: Option<Amount>,
    pub should_update_ratio: bool,
    pub ratio: Option<Amount>,
}

/// A change of a deployment. Of the fields that can be cleared, nothing leaves
/// the column alone, an empty value clears it, and a value sets it.
#[derive(Debug)]
pub struct DeploymentUpdateDBRequest<L> {
    pub model_name: Option<String>,
    pub alias: Option<String>,
    pub description: Option<Option<String>>,
    pub model_type: Option<Option<ModelType>>,
    pub capabilities: Option<Option<Vec<String>>>,
    pub status: Option<ModelStatus>,
    pub last_sync: Option<Option<Timestamp>>,
    pub deleted: Option<bool>,
    pub requests_per_second: Option<Option<L>>,
    pub burst_size: Option<Option<i32>>,
    pub capacity: Option<Option<i32>>,
    pub batch_capacity: Option<Option<i32>>,
    pub throughput: Option<Option<L>>,
    pub provider_pricing: Option<PricingUpdateParams>,
    pub lb_strategy: Option<LoadBalancingStrategy>,
    pub fallback_enabled: Option<bool>,
    pub fallback_on_rate_limit: Option<bool>,
    pub fallback_on_status: Option<Vec<i32>>,
    pub fallback_with_replacement: Option<bool>,
    pub fallback_max_attempts: Option<Option<i32>>,
    pub sanitize_responses: Option<bool>,
    pub trusted: Option<bool>,
    pub open_responses_adapter: Option<bool>,
}

/// The parameters of an update: flags and values for the columns that can be
/// cleared, and values for those that cannot.
#[derive(Debug)]
pub struct UpdateColumns<'a, L> {
    pub model_name: Option<String>,
    pub alias: Option<String>,
    pub description: (bool, Option<&'a str>),
    pub model_type: (bool, Option<&'static str>),
    pub capabilities: (bool, Option<&'a Vec<String>>),
    pub status: Option<&'a str>,
    pub last_sync: (bool, Option<Timestamp>),
    pub requests_per_second: (bool, Option<L>),
    pub burst_size: (bool, Option<i32>),
    pub capacity: (bool, Option<i32>),
    pub batch_capacity: (bool, Option<i32>),
    pub throughput: (bool, Option<L>),
    pub pricing_mode: (bool, Option<&'a str>),
    pub pricing_input: (bool, Option<Amount>),
    pub pricing_output: (bool, Option<Amount>),
    pub pricing_hourly: (bool, Option<Amount>),
    pub pricing_ratio: (bool, Option<Amount>),
    pub lb_strategy: Option<&'static str>,
    pub fallback_max_attempts: (bool, Option<i32>),
}

/// Whether a flag and a value are those of a three-state field.
pub open spec fn is_flagged<T>(pair: (bool, Option<T>), field: Option<Option<T>>) -> bool {
    pair.0 == field is Some && pair.1 == (match field {
        Some(value) => value,
        None => None,
    })
}

/// Whether the columns that can be cleared are those of a request.
pub open spec fn clears_as_asked<L>(c: UpdateColumns<L>, request: DeploymentUpdateDBRequest<L>) -> bool {
    &&& c.description.0 == request.description is Some
    &&& str_or_none(c.description.1) == (match request.description {
        Some(value) => text_or_none(value),
        None => None,
    })
    &&& c.model_type.0 == request.model_type is Some
    &&& str_or_none(c.model_type.1) == (match request.model_type {
        Some(value) => type_name_or_none(value),
        None => None,
    })
    &&& c.capabilities.0 == request.capabilities is Some
    &&& (match request.capabilities {
        Some(Some(list)) => c.capabilities.1 == Some(&list),
        _ => c.capabilities.1 is None,
    })
    &&& is_flagged(c.last_sync, request.last_sync)
    &&& is_flagged(c.requests_per_second, request.requests_per_second)
    &&& is_flagged(c.burst_size, request.burst_size)
    &&& is_flagged(c.capacity, request.capacity)
    &&& is_flagged(c.batch_capacity, request.batch_capacity)
    &&& is_flagged(c.throughput, request.throughput)
    &&& is_flagged(c.fallback_max_attempts, request.fallback_max_attempts)
}

/// Whether the pricing columns are those of a request; without a pricing change
/// none is touched.
pub open spec fn prices_as_asked<L>(c: UpdateColumns<L>, request: DeploymentUpdateDBRequest<L>) -> bool {
    match request.provider_pricing {
        Some(p) => {
            &&& c.pricing_mode.0 == p.should_update_mode
            &&& str_or_none(c.pricing_mode.1) == text_or_none(p.mode)
            &&& c.pricing_input == (p.should_update_input, p.input)
            &&& c.pricing_output == (p.should_update_output, p.output)
            &&& c.pricing_hourly == (p.should_update_hourly, p.hourly)
            &&& c.pricing_ratio == (p.should_update_ratio, p.ratio)
        },
        None => {
            &&& !c.pricing_mode.0 && c.pricing_mode.1 is None
            &&& !c.pricing_input.0 && c.pricing_input.1 is None
            &&& !c.pricing_output.0 && c.pricing_output.1 is None
            &&& !c.pricing_hourly.0 && c.pricing_hourly.1 is None
            &&& !c.pricing_ratio.0 && c.pricing_ratio.1 is None
        },
    }
}

/// The parameters of an update, or what is wrong with its names.
pub fn update_columns<'a, L: Copy>(request: &'a DeploymentUpdateDBRequest<L>) -> (r: Result<
    UpdateColumns<'a, L>,
    DbError,
>)
    ensures
        if is_given_blank(text_or_none(request.model_name)) {
            rejects_field(r, "model_name"@)
        } else if is_given_blank(text_or_none(request.alias)) {
            rejects_field(r, "alias"@)
        } else {
            r matches Ok(c) && text_or_none(c.model_name) == trimmed_or_none(
                text_or_none(request.model_name),
            ) && text_or_none(c.alias) == trimmed_or_none(text_or_none(request.alias))
                && clears_as_asked(c, *request) && prices_as_asked(c, *request) && str_or_none(
                c.status,
            ) == (match request.status {
                Some(s) => Some(s.name@),
                None => None,
            }) && str_or_none(c.lb_strategy) == strategy_name_or_none(request.lb_strategy)
        },
{
    let (model_name, alias) = match checked_new_names(&request.model_name, &request.alias) {
        Ok(names) => names,
        Err(e) => {
            return Err(e);
        },
    };
    let model_type: (bool, Option<&'static str>) = match request.model_type {
        Some(t) => (true, optional_type_name(t)),
        None => (false, None),
    };
    let capabilities: (bool, Option<&'a Vec<String>>) = match &request.capabilities {
        Some(list) => (true, list.as_ref()),
        None => (false, None),
    };
    let status = match &request.status {
        Some(s) => Some(s.name.as_str()),
        None => None,
    };
    let (mode, input, output, hourly, ratio): (
        (bool, Option<&'a str>),
        (bool, Option<Amount>),
        (bool, Option<Amount>),
        (bool, Option<Amount>),
        (bool, Option<Amount>),
    ) = match &request.provider_pricing {
        Some(p) => (
            (p.should_update_mode, borrowed(&p.mode)),
            (p.should_update_input, p.input),
            (p.should_update_output, p.output),
            (p.should_update_hourly, p.hourly),
            (p.should_update_ratio, p.ratio),
        ),
        None => ((false, None), (false, None), (false, None), (false, None), (false, None)),
    };
    Ok(
        UpdateColumns {
            model_name,
            alias,
            description: flagged_text(&request.description),
            model_type,
            capabilities,
            status,
            last_sync: flagged(request.last_sync),
            requests_per_second: flagged(request.requests_per_second),
            burst_size: flagged(request.burst_size),
            capacity: flagged(request.capacity),
            batch_capacity: flagged(request.batch_capacity),
            throughput: flagged(request.throughput),
            pricing_mode: mode,
            pricing_input: input,
            pricing_output: output,
            pricing_hourly: hourly,
            pricing_ratio: ratio,
            lb_strategy: optional_strategy_name(request.lb_strategy),
            fallback_max_attempts: flagged(request.fallback_max_attempts),
        },
    )
}

/// A component row of a composite deployment.
#[derive(Debug)]
pub struct DeploymentComponentRow {
    pub id: u128,
    pub composite_model_id: u128,
    pub deployed_model_id: u128,
    pub weight: i32,
    pub enabled: bool,
    pub sort_order: i32,
    pub created_at: Timestamp,
    pub model_alias: String,
    pub model_name: String,
    pub model_description: Option<String>,
    pub model_type: Option<String>,
    pub endpoint_id: Option<u128>,
    pub endpoint_name: Option<String>,
    pub model_trusted: bool,
    pub model_open_responses_adapter: Option<bool>,
}

/// A component of a composite deployment, as handed out.
#[derive(Debug)]
pub struct DeploymentComponentDBResponse {
    pub id: u128,
    pub composite_model_id: u128,
    pub deployed_model_id: u128,
    pub weight: i32,
    pub enabled: bool,
    pub sort_order: i32,
    pub created_at: Timestamp,
    pub model_alias: String,
    pub model_name: String,
    pub model_description: Option<String>,
    pub model_type: Option<String>,
    pub endpoint_id: Option<u128>,
    pub endpoint_name: Option<String>,
    pub model_trusted: bool,
    pub model_open_responses_adapter: bool,
}

/// A component row as handed out.
pub open spec fn component_of_row(r: DeploymentComponentRow) -> DeploymentComponentDBResponse {
    DeploymentComponentDBResponse {
        id: r.id,
        composite_model_id: r.composite_model_id,
        deployed_model_id: r.deployed_model_id,
        weight: r.weight,
        enabled: r.enabled,
        sort_order: r.sort_order,
        created_at: r.created_at,
        model_alias: r.model_alias,
        model_name: r.model_name,
        model_description: r.model_description,
        model_type: r.model_type,
        endpoint_id: r.endpoint_id,
        endpoint_name: r.endpoint_name,
        model_trusted: r.model_trusted,
        model_open_responses_adapter: flag_or(r.model_open_responses_adapter, true),
    }
}

/// A component row as handed out.
pub fn component_response(r: DeploymentComponentRow) -> (c: DeploymentComponentDBResponse)
    ensures
        c == component_of_row(r),
{
    DeploymentComponentDBResponse {
        id: r.id,
        composite_model_id: r.composite_model_id,
        deployed_model_id: r.deployed_model_id,
        weight: r.weight,
        enabled: r.enabled,
        sort_order: r.sort_order,
        created_at: r.created_at,
        model_alias: r.model_alias,
        model_name: r.model_name,
        model_description: r.model_description,
        model_type: r.model_type,
        endpoint_id: r.endpoint_id,
        endpoint_name: r.endpoint_name,
        model_trusted: r.model_trusted,
        model_open_responses_adapter: or_default(r.model_open_responses_adapter, true),
    }
}

/// Component rows as handed out, in order.
pub fn component_responses(rows: Vec<DeploymentComponentRow>) -> (r: Vec<
    DeploymentComponentDBResponse,
>)
    ensures
        r@ == rows@.map_values(|row: DeploymentComponentRow| component_of_row(row)),
{
    let ghost all = rows@;
    let mut out: Vec<DeploymentComponentDBResponse> = Vec::new();
    for row in it: rows
        invariant
            it.seq() == all,
            out@.len() == it.index(),
            forall|j: int| 0 <= j < it.index() ==> out@[j] == component_of_row(#[trigger] all[j]),
    {
        out.push(component_response(row));
    }
    assert(out@ =~= all.map_values(|row: DeploymentComponentRow| component_of_row(row)));
    out
}

/// Component rows with the composite model each belongs to.
pub open spec fn keyed_components(rows: Seq<DeploymentComponentRow>) -> Seq<
    (u128, DeploymentComponentDBResponse),
> {
    rows.map_values(|row: DeploymentComponentRow| (row.composite_model_id, component_of_row(row)))
}

/// Component rows as handed out, by composite model, each list in order.
pub fn components_by_composite(rows: Vec<DeploymentComponentRow>) -> (r: HashMap<
    u128,
    Vec<DeploymentComponentDBResponse>,
>)
    ensures
        groups(r@, keyed_components(rows@)),
        forall|id: u128| #[trigger]
            gives_values(r@, keyed_components(rows@), rows@.len() as int, id),
{
    let ghost all = rows@;
    let mut keyed: Vec<(u128, DeploymentComponentDBResponse)> = Vec::new();
    for row in it: rows
        invariant
            it.seq() == all,
            keyed@.len() == it.index(),
            forall|j: int|
                0 <= j < it.index() ==> keyed@[j] == (
                    (#[trigger] all[j]).composite_model_id,
                    component_of_row(all[j]),
                ),
    {
        let id: u128 = row.composite_model_id;
        keyed.push((id, component_response(row)));
    }
    assert(keyed@ =~= keyed_components(all));
    group_by_id(keyed)
}

/// The throughputs that are configured, with the alias of their model, in order.
pub open spec fn configured_throughputs<L>(rows: Seq<(String, Option<L>)>, n: int) -> Seq<
    (Seq<char>, L),
>
    decreases n,
{
    if n <= 0 {
        Seq::empty()
    } else {
        match rows[n - 1].1 {
            Some(t) => configured_throughputs(rows, n - 1).push((rows[n - 1].0@, t)),
            None => configured_throughputs(rows, n - 1),
        }
    }
}

/// The throughputs that are configured, with the alias of their model.
pub fn throughputs<L: Copy>(rows: &Vec<(String, Option<L>)>) -> (r: Vec<(String, L)>)
    ensures
        r@.map_values(|e: (String, L)| (e.0@, e.1)) == configured_throughputs(
            rows@,
            rows@.len() as int,
        ),
{
    let mut out: Vec<(String, L)> = Vec::new();
    let ghost view = |e: (String, L)| (e.0@, e.1);
    let mut i: usize = 0;
    assert(out@.map_values(view) =~= configured_throughputs(rows@, 0));
    while i < rows.len()
        invariant
            i <= rows@.len(),
            view == (|e: (String, L)| (e.0@, e.1)),
            out@.map_values(view) == configured_throughputs(rows@, i as int),
        decreases rows@.len() - i,
    {
        let ghost before = out@;
        match rows[i].1 {
            Some(t) => {
                out.push((rows[i].0.clone(), t));
                assert(out@.map_values(view) =~= before.map_values(view).push(
                    (rows@[i as int].0@, t),
                ));
            },
            None => {},
        }
        i = i + 1;
    }
    out
}

/// An update changes each price on its own: where its change is asked for, the
/// stored price becomes the one that is asked for, and otherwise it stays what it
/// was, whatever is asked of the other prices.
pub proof fn law_each_price_changes_on_its_own<L>(
    c: UpdateColumns<L>,
    request: DeploymentUpdateDBRequest<L>,
    stored: ProviderPricingFields,
)
    requires
        prices_as_asked(c, request),
    ensures
        ({
            let asks = request.provider_pricing;
            let input = if c.pricing_input.0 {
                c.pricing_input.1
            } else {
                stored.input_price_per_token
            };
            let output = if c.pricing_output.0 {
                c.pricing_output.1
            } else {
                stored.output_price_per_token
            };
            let hourly = if c.pricing_hourly.0 {
                c.pricing_hourly.1
            } else {
                stored.hourly_rate
            };
            let ratio = if c.pricing_ratio.0 {
                c.pricing_ratio.1
            } else {
                stored.input_token_cost_ratio
            };
            &&& asks is Some && (asks->0).should_update_input ==> input == (asks->0).input
            &&& asks is None || !(asks->0).should_update_input ==> input
                == stored.input_price_per_token
            &&& asks is Some && (asks->0).should_update_output ==> output == (asks->0).output
            &&& asks is None || !(asks->0).should_update_output ==> output
                == stored.output_price_per_token
            &&& asks is Some && (asks->0).should_update_hourly ==> hourly == (asks->0).hourly
            &&& asks is None || !(asks->0).should_update_hourly ==> hourly == stored.hourly_rate
            &&& asks is Some && (asks->0).should_update_ratio ==> ratio == (asks->0).ratio
            &&& asks is None || !(asks->0).should_update_ratio ==> ratio
                == stored.input_token_cost_ratio
            &&& c.pricing_mode.0 <==> asks is Some && (asks->0).should_update_mode
            &&& c.pricing_mode.0 ==> (c.pricing_mode.1 is Some <==> (asks->0).mode is Some)
            &&& c.pricing_mode.0 && c.pricing_mode.1 is Some ==> (c.pricing_mode.1->0)@ == ((
            asks->0).mode->0)@
        }),
{
}

/// Two updates that ask the same of the output price write the same output price,
/// whatever they ask of the others; and so for the input price, the hourly rate
/// and the ratio.
pub proof fn law_prices_do_not_depend_on_each_other<L>(
    c: UpdateColumns<L>,
    request: DeploymentUpdateDBRequest<L>,
    other: UpdateColumns<L>,
    other_request: DeploymentUpdateDBRequest<L>,
)
    requires
        prices_as_asked(c, request),
        prices_as_asked(other, other_request),
        request.provider_pricing is Some,
        other_request.provider_pricing is Some,
    ensures
        ({
            let p = request.provider_pricing->0;
            let q = other_request.provider_pricing->0;
            &&& p.should_update_input == q.should_update_input && p.input == q.input
                <==> c.pricing_input == other.pricing_input
            &&& p.should_update_output == q.should_update_output && p.output == q.output
                <==> c.pricing_output == other.pricing_output
            &&& p.should_update_hourly == q.should_update_hourly && p.hourly == q.hourly
                <==> c.pricing_hourly == other.pricing_hourly
            &&& p.should_update_ratio == q.should_update_ratio && p.ratio == q.ratio
                <==> c.pricing_ratio == other.pricing_ratio
        }),
{
}

/// An update changes each of the other columns that can be cleared on its own:
/// where nothing is asked it keeps what is stored, and otherwise it is what is
/// asked for, nothing included.
pub proof fn law_each_column_changes_on_its_own<L>(
    c: UpdateColumns<L>,
    request: DeploymentUpdateDBRequest<L>,
    stored: DeployedModel<L>,
)
    requires
        clears_as_asked(c, request),
    ensures
        (if c.last_sync.0 {
            c.last_sync.1
        } else {
            stored.last_sync
        }) == (if request.last_sync is Some {
            request.last_sync->0
        } else {
            stored.last_sync
        }),
        (if c.requests_per_second.0 {
            c.requests_per_second.1
        } else {
            stored.requests_per_second
        }) == (if request.requests_per_second is Some {
            request.requests_per_second->0
        } else {
            stored.requests_per_second
        }),
        (if c.burst_size.0 {
            c.burst_size.1
        } else {
            stored.burst_size
        }) == (if request.burst_size is Some {
            request.burst_size->0
        } else {
            stored.burst_size
        }),
        (if c.capacity.0 {
            c.capacity.1
        } else {
            stored.capacity
        }) == (if request.capacity is Some {
            request.capacity->0
        } else {
            stored.capacity
        }),
        (if c.batch_capacity.0 {
            c.batch_capacity.1
        } else {
            stored.batch_capacity
        }) == (if request.batch_capacity is Some {
            request.batch_capacity->0
        } else {
            stored.batch_capacity
        }),
        (if c.throughput.0 {
            c.throughput.1
        } else {
            stored.throughput
        }) == (if request.throughput is Some {
            request.throughput->0
        } else {
            stored.throughput
        }),
        (if c.fallback_max_attempts.0 {
            c.fallback_max_attempts.1
        } else {
            stored.fallback_max_attempts
        }) == (if request.fallback_max_attempts is Some {
            request.fallback_max_attempts->0
        } else {
            stored.fallback_max_attempts
        }),
        c.description.0 <==> request.description is Some,
        c.description.0 ==> (c.description.1 is Some <==> request.description->0 is Some),
        c.description.0 && c.description.1 is Some ==> (c.description.1->0)@ == (
        request.description->0->0)@,
        c.model_type.0 <==> request.model_type is Some,
        c.model_type.0 ==> (c.model_type.1 is Some <==> request.model_type->0 is Some),
        c.model_type.0 && c.model_type.1 is Some ==> named_model_type((c.model_type.1->0)@)
            == Some(request.model_type->0->0),
        c.capabilities.0 <==> request.capabilities is Some,
        c.capabilities.0 ==> (c.capabilities.1 is Some <==> request.capabilities->0 is Some),
        c.capabilities.0 && c.capabilities.1 is Some ==> *(c.capabilities.1->0)
            == request.capabilities->0->0,
{
    if c.model_type.0 && c.model_type.1 is Some {
        law_model_type_reads_back(request.model_type->0->0);
    }
}

/// A flag that is stored is handed out as it is, and one that is not as its
/// default.
pub proof fn law_stored_flags_are_kept(flag: bool, default: bool)
    ensures
        flag_or(Some(flag), default) == flag,
        flag_or(None, default) == default,
{
}

/// A deployment is handed out as it is stored, each field under its own name. A
/// missing flag is taken as on for fallback, for fallback on rate limits and for
/// the responses adapter, and as off for replacement.
pub proof fn law_responses_keep_their_deployments<L>(
    r: DeploymentDBResponse<L>,
    m: DeployedModel<L>,
    model_type: Option<ModelType>,
)
    requires
        is_response_of(r, m, model_type),
    ensures
        r.id == m.id,
        r.model_name@ == m.model_name@,
        r.alias@ == m.alias@,
        r.description == m.description,
        r.model_type == model_type,
        r.capabilities == m.capabilities,
        r.created_by == m.created_by,
        r.hosted_on == m.hosted_on,
        r.status.name@ == m.status@,
        r.last_sync == m.last_sync,
        r.deleted == m.deleted,
        r.created_at == m.created_at,
        r.updated_at == m.updated_at,
        r.requests_per_second == m.requests_per_second,
        r.burst_size == m.burst_size,
        r.capacity == m.capacity,
        r.batch_capacity == m.batch_capacity,
        r.throughput == m.throughput,
        r.provider_pricing == m.downstream_pricing,
        r.is_composite == m.is_composite,
        r.fallback_max_attempts == m.fallback_max_attempts,
        r.sanitize_responses == m.sanitize_responses,
        r.trusted == m.trusted,
        m.fallback_on_status is Some ==> r.fallback_on_status@ == (m.fallback_on_status->0)@,
        m.fallback_on_status is None ==> forall|code: i32| #[trigger]
            r.fallback_on_status@.contains(code) <==> code == 429 || code == 500 || 502 <= code
                <= 504,
        m.lb_strategy is None ==> r.lb_strategy is WeightedRandom,
        m.lb_strategy is Some && (m.lb_strategy->0)@ == "priority"@ ==> r.lb_strategy is Priority,
        m.lb_strategy is Some && (m.lb_strategy->0)@ != "priority"@ ==> r.lb_strategy is WeightedRandom,
        r.fallback_enabled <==> m.fallback_enabled != Some(false),
        r.fallback_on_rate_limit <==> m.fallback_on_rate_limit != Some(false),
        r.open_responses_adapter <==> m.open_responses_adapter != Some(false),
        r.fallback_with_replacement <==> m.fallback_with_replacement == Some(true),
{
    lemma_default_statuses();
}

/// The type of a deployment reads back from the name under which it was written,
/// right after the write for every type, and later for all but rerankers. A name
/// that is no type's gives none, nor does no name.
pub proof fn law_written_types_read_back(t: ModelType, name: Seq<char>)
    ensures
        written_model_type(Some(model_type_name(t))) == Some(t),
        t is Reranker ==> read_model_type(Some(model_type_name(t))) is None,
        !(t is Reranker) ==> read_model_type(Some(model_type_name(t))) == Some(t),
        written_model_type(None) is None,
        read_model_type(None) is None,
        written_model_type(Some(name)) is Some ==> model_type_name(
            written_model_type(Some(name))->0,
        ) == name,
        read_model_type(Some(name)) is Some ==> model_type_name(read_model_type(Some(name))->0)
            == name,
{
    law_model_type_reads_back(t);
}

/// A strategy reads back from its name; whatever is no name of a strategy, or is
/// missing, stands for weighted picks.
pub proof fn law_strategies_read_back(s: LoadBalancingStrategy, name: Seq<char>)
    ensures
        LoadBalancingStrategy::of_name(Some(s.name())) == s,
        LoadBalancingStrategy::of_name(None) is WeightedRandom,
        LoadBalancingStrategy::of_name(Some(name)) is Priority ==> name
            == LoadBalancingStrategy::Priority.name(),
{
    reveal_strlit("weighted_random");
    reveal_strlit("priority");
    assert("weighted_random"@.len() == 15 && "priority"@.len() == 8);
}

/// The names of a type and of a strategy that are written are their own.
pub proof fn law_optional_names_are_written(t: ModelType, s: LoadBalancingStrategy)
    ensures
        type_name_or_none(Some(t)) is Some,
        named_model_type(type_name_or_none(Some(t))->0) == Some(t),
        type_name_or_none(None) is None,
        strategy_name_or_none(Some(s)) is Some,
        LoadBalancingStrategy::of_name(strategy_name_or_none(Some(s))) == s,
        strategy_name_or_none(None) is None,
{
    law_model_type_reads_back(t);
    law_strategies_read_back(s, s.name());
}

/// A name is blank exactly where it is all white space, and an optional name is
/// trimmed where it is given.
pub proof fn law_blank_names_are_white_space(name: Seq<char>)
    ensures
        is_blank(name) <==> (forall|i: int|
            0 <= i < name.len() ==> crate::text::white_space(#[trigger] name[i])),
        is_given_blank(Some(name)) <==> is_blank(name),
        !is_given_blank(None),
        trimmed_or_none(Some(name)) == Some(trimmed(name)),
        trimmed_or_none(None) is None,
{
    crate::text::law_trimmed(name);
}

/// Each filter that is set binds its own value, once for each place where the
/// query needs it, and one that is not set adds nothing. An empty list of groups
/// or aliases narrows nothing.
pub proof fn law_filters_bind_their_values(f: DeploymentFilter)
    ensures
        f.endpoint_id is Some ==> endpoint_clause(f).len() == 2 && endpoint_clause(f)[1]
            == Piece::Id(f.endpoint_id->0),
        f.endpoint_id is None ==> endpoint_clause(f).len() == 0,
        f.statuses is Some ==> status_clause(f).len() == 3 && (status_clause(f)[1] matches
            Piece::Values(names) && names.len() == (f.statuses->0)@.len() && forall|i: int|
            0 <= i < names.len() ==> #[trigger] names[i] == (f.statuses->0)@[i].name@),
        f.statuses is None ==> status_clause(f).len() == 0,
        f.deleted is Some ==> deleted_clause(f).len() == 2 && deleted_clause(f)[1] == Piece::Bool(
            f.deleted->0,
        ),
        f.deleted is None ==> deleted_clause(f).len() == 0,
        f.aliases is Some && (f.aliases->0)@.len() > 0 ==> alias_clause(f).len() == 3 && (
        alias_clause(f)[1] matches Piece::Values(names) && names.len() == (f.aliases->0)@.len()
            && forall|i: int|
            0 <= i < names.len() ==> #[trigger] names[i] == (f.aliases->0)@[i]@),
        f.aliases is None || (f.aliases->0)@.len() == 0 ==> alias_clause(f).len() == 0,
        f.accessible_to is Some ==> access_clause(f).len() == 8 && access_clause(f)[3]
            == Piece::Id(f.accessible_to->0) && access_clause(f)[5] == Piece::Id(
            f.accessible_to->0,
        ),
        f.accessible_to is None ==> access_clause(f).len() == 0,
        f.group_ids is Some && (f.group_ids->0)@.len() > 0 ==> group_clause(f).len() == 4
            && group_clause(f)[2] == Piece::Ids((f.group_ids->0)@),
        f.group_ids is None || (f.group_ids->0)@.len() == 0 ==> group_clause(f).len() == 0,
        f.search is Some ==> search_clause(f).len() == 7 && search_clause(f)[1] == Piece::Value(
            seq!['%'] + crate::text::lower_case((f.search->0)@) + seq!['%'],
        ) && search_clause(f)[3] == search_clause(f)[1] && search_clause(f)[5] == search_clause(
            f,
        )[1],
        f.search is None ==> search_clause(f).len() == 0,
        f.is_composite is Some ==> composite_clause(f).len() == 2 && composite_clause(f)[1]
            == Piece::Bool(f.is_composite->0),
        f.is_composite is None ==> composite_clause(f).len() == 0,
        page_clause(f.limit, f.skip).len() == 4,
        page_clause(f.limit, f.skip)[1] == Piece::Int(f.limit),
        page_clause(f.limit, f.skip)[3] == Piece::Int(f.skip),
        deployment_clauses(f).len() == endpoint_clause(f).len() + status_clause(f).len()
            + deleted_clause(f).len() + alias_clause(f).len() + access_clause(f).len()
            + group_clause(f).len() + search_clause(f).len() + composite_clause(f).len(),
{
    reveal_strlit("%");
    if f.search is Some {
        assert(like_pattern((f.search->0)@) =~= seq!['%'] + crate::text::lower_case(
            (f.search->0)@,
        ) + seq!['%']);
    }
}

/// A component is handed out as its row holds it; the adapter is on unless the
/// row switches it off.
pub proof fn law_components_keep_their_rows(row: DeploymentComponentRow)
    ensures
        ({
            let c = component_of_row(row);
            &&& c.id == row.id
            &&& c.composite_model_id == row.composite_model_id
            &&& c.deployed_model_id == row.deployed_model_id
            &&& c.weight == row.weight
            &&& c.enabled == row.enabled
            &&& c.sort_order == row.sort_order
            &&& c.created_at == row.created_at
            &&& c.model_alias@ == row.model_alias@
            &&& c.model_name@ == row.model_name@
            &&& c.model_description == row.model_description
            &&& c.model_type == row.model_type
            &&& c.endpoint_id == row.endpoint_id
            &&& c.endpoint_name == row.endpoint_name
            &&& c.model_trusted == row.model_trusted
            &&& c.model_open_responses_adapter <==> row.model_open_responses_adapter != Some(false)
        }),
{
}

/// A component belongs to the composite model that its row names.
pub proof fn law_components_belong_to_their_model(rows: Seq<DeploymentComponentRow>, i: int)
    requires
        0 <= i < rows.len(),
    ensures
        keyed_components(rows).len() == rows.len(),
        keyed_components(rows)[i].0 == rows[i].composite_model_id,
        keyed_components(rows)[i].1.composite_model_id == rows[i].composite_model_id,
        keyed_components(rows)[i].1.id == rows[i].id,
{
}

proof fn lemma_throughput_prefix<L>(
    rows: Seq<(String, Option<L>)>,
    more: Seq<(String, Option<L>)>,
    n: int,
)
    requires
        n <= rows.len(),
    ensures
        configured_throughputs(rows + more, n) == configured_throughputs(rows, n),
    decreases n,
{
    if n > 0 {
        lemma_throughput_prefix(rows, more, n - 1);
        assert((rows + more)[n - 1] == rows[n - 1]);
    }
}

/// One row more with a throughput adds that throughput under the row's alias, and
/// one without adds nothing.
pub proof fn law_throughputs_grow_by_their_rows<L>(
    rows: Seq<(String, Option<L>)>,
    row: (String, Option<L>),
)
    ensures
        ({
            let before = configured_throughputs(rows, rows.len() as int);
            let after = configured_throughputs(rows + seq![row], (rows.len() + 1) as int);
            &&& row.1 is Some ==> after.len() == before.len() + 1 && after.last().0 == row.0@
                && after.last().1 == row.1->0 && after.drop_last() == before
            &&& row.1 is None ==> after == before
        }),
        configured_throughputs(Seq::<(String, Option<L>)>::empty(), 0).len() == 0,
{
    let n = rows.len() as int;
    lemma_throughput_prefix(rows, seq![row], n);
    assert((rows + seq![row])[n] == row);
    let before = configured_throughputs(rows, n);
    let after = configured_throughputs(rows + seq![row], n + 1);
    if row.1 is Some {
        assert(after.drop_last() =~= before);
    }
}

/// An update that is accepted writes each price that is asked for under its own
/// column, keeps the others, and hands the rest on as it is asked.
pub proof fn law_updates_are_as_asked<'a, L: Copy>(
    request: &'a DeploymentUpdateDBRequest<L>,
    r: Result<UpdateColumns<'a, L>, DbError>,
    stored: ProviderPricingFields,
    model: DeployedModel<L>,
)
    requires
        call_ensures(update_columns::<L>, (request,), r),
    ensures
        r is Err <==> (request.model_name is Some && is_blank((request.model_name->0)@)) || (
        request.alias is Some && is_blank((request.alias->0)@)),
        r matches Ok(c) ==> ({
            let asks = request.provider_pricing;
            &&& (if c.pricing_input.0 {
                c.pricing_input.1
            } else {
                stored.input_price_per_token
            }) == (if asks is Some && (asks->0).should_update_input {
                (asks->0).input
            } else {
                stored.input_price_per_token
            })
            &&& (if c.pricing_output.0 {
                c.pricing_output.1
            } else {
                stored.output_price_per_token
            }) == (if asks is Some && (asks->0).should_update_output {
                (asks->0).output
            } else {
                stored.output_price_per_token
            })
            &&& (if c.pricing_hourly.0 {
                c.pricing_hourly.1
            } else {
                stored.hourly_rate
            }) == (if asks is Some && (asks->0).should_update_hourly {
                (asks->0).hourly
            } else {
                stored.hourly_rate
            })
            &&& (if c.pricing_ratio.0 {
                c.pricing_ratio.1
            } else {
                stored.input_token_cost_ratio
            }) == (if asks is Some && (asks->0).should_update_ratio {
                (asks->0).ratio
            } else {
                stored.input_token_cost_ratio
            })
            &&& (if c.capacity.0 {
                c.capacity.1
            } else {
                model.capacity
            }) == (if request.capacity is Some {
                request.capacity->0
            } else {
                model.capacity
            })
            &&& (if c.batch_capacity.0 {
                c.batch_capacity.1
            } else {
                model.batch_capacity
            }) == (if request.batch_capacity is Some {
                request.batch_capacity->0
            } else {
                model.batch_capacity
            })
            &&& c.model_name is Some <==> request.model_name is Some
            &&& c.model_name is Some ==> (c.model_name->0)@ == trimmed((request.model_name->0)@)
            &&& c.alias is Some <==> request.alias is Some
            &&& c.alias is Some ==> (c.alias->0)@ == trimmed((request.alias->0)@)
            &&& c.status is Some <==> request.status is Some
            &&& c.status is Some ==> (c.status->0)@ == (request.status->0).name@
            &&& c.lb_strategy is Some <==> request.lb_strategy is Some
            &&& c.lb_strategy is Some ==> (c.lb_strategy->0)@ == (request.lb_strategy->0).name()
        }),
{
    if let Ok(c) = r {
        law_each_price_changes_on_its_own(c, *request, stored);
        law_each_column_changes_on_its_own(c, *request, model);
    }
}

/// A new deployment that is accepted has its names without white space around
/// them, its type and strategy by name, and its adapter as asked.
pub proof fn law_new_deployments_are_as_asked<L>(
    request: DeploymentCreateDBRequest<L>,
    r: Result<CreateColumns, DbError>,
)
    requires
        call_ensures(create_columns::<L>, (&request,), r),
    ensures
        r is Err <==> is_blank(request.model_name@) || is_blank(request.alias@),
        r matches Ok(c) ==> c.model_name@ == trimmed(request.model_name@) && c.alias@ == trimmed(
            request.alias@,
        ) && (c.model_type is Some <==> request.model_type is Some) && (c.model_type is Some
            ==> named_model_type((c.model_type->0)@) == request.model_type) && (c.lb_strategy is Some
            <==> request.lb_strategy is Some) && (c.lb_strategy is Some ==> (c.lb_strategy->0)@ == (
        request.lb_strategy->0).name()) && c.open_responses_adapter == Some(
            request.open_responses_adapter,
        ),
{
    if let Some(t) = request.model_type {
        law_model_type_reads_back(t);
    }
}

/// Deployments are listed in the order in which they are read, each as it is
/// stored.
pub proof fn law_listed_deployments_are_as_stored<L>(
    models: Vec<DeployedModel<L>>,
    r: Vec<DeploymentDBResponse<L>>,
    i: int,
)
    requires
        call_ensures(read_deployments::<L>, (models,), r),
        0 <= i < models@.len(),
    ensures
        r@.len() == models@.len(),
        r@[i].id == models@[i].id,
        r@[i].model_name@ == models@[i].model_name@,
        r@[i].alias@ == models@[i].alias@,
        r@[i].provider_pricing == models@[i].downstream_pricing,
        r@[i].capacity == models@[i].capacity,
        r@[i].batch_capacity == models@[i].batch_capacity,
        r@[i].hosted_on == models@[i].hosted_on,
        r@[i].deleted == models@[i].deleted,
        r@[i].trusted == models@[i].trusted,
        r@[i].fallback_enabled <==> models@[i].fallback_enabled != Some(false),
        r@[i].model_type is Some ==> model_type_name(r@[i].model_type->0) == (
        models@[i].model_type->0)@,
{
    assert(is_read(r@[i], models@[i]));
}

/// Each builder of a filter sets its own part and keeps the others.
pub proof fn law_filters_are_built_part_by_part(
    f: DeploymentFilter,
    endpoint: u128,
    deleted: bool,
    user: u128,
    composite: bool,
    a: DeploymentFilter,
    b: DeploymentFilter,
    c: DeploymentFilter,
    d: DeploymentFilter,
)
    requires
        call_ensures(DeploymentFilter::with_endpoint, (f, endpoint), a),
        call_ensures(DeploymentFilter::with_deleted, (a, deleted), b),
        call_ensures(DeploymentFilter::with_accessible_to, (b, user), c),
        call_ensures(DeploymentFilter::with_composite, (c, composite), d),
    ensures
        d.endpoint_id == Some(endpoint),
        d.deleted == Some(deleted),
        d.accessible_to == Some(user),
        d.is_composite == Some(composite),
        d.skip == f.skip,
        d.limit == f.limit,
        d.statuses == f.statuses,
        d.group_ids == f.group_ids,
        d.aliases == f.aliases,
        d.search == f.search,
{
}

/// A page and a count of the same filter narrow to the same, and the page ends
/// with its limit and its offset.
pub proof fn law_pages_and_counts_agree(f: DeploymentFilter, page: SqlQuery, count: SqlQuery)
    requires
        call_ensures(list_query, (&f,), page),
        call_ensures(count_query, (&f,), count),
    ensures
        page@.len() == count@.len() + 4,
        page@.subrange(1, count@.len() as int) == count@.skip(1),
        page@[page@.len() - 3] == Piece::Int(f.limit),
        page@[page@.len() - 1] == Piece::Int(f.skip),
{
    assert(page@.subrange(1, count@.len() as int) =~= count@.skip(1));
}

/// Deployments by identifier: every one that no later one replaces is under its
/// own identifier, as it is stored.
pub proof fn law_deployments_are_found_by_identifier<L>(
    models: Vec<DeployedModel<L>>,
    r: HashMap<u128, DeploymentDBResponse<L>>,
    i: int,
)
    requires
        call_ensures(deployments_by_id::<L>, (models,), r),
        0 <= i < models@.len(),
        forall|j: int| i < j < models@.len() ==> (#[trigger] models@[j]).id != models@[i].id,
    ensures
        r@.contains_key(models@[i].id),
        r@[models@[i].id].id == models@[i].id,
        r@[models@[i].id].alias@ == models@[i].alias@,
        r@[models@[i].id].model_name@ == models@[i].model_name@,
        r@[models@[i].id].provider_pricing == models@[i].downstream_pricing,
        r@[models@[i].id].capacity == models@[i].capacity,
        r@[models@[i].id].batch_capacity == models@[i].batch_capacity,
{
    let id = models@[i].id;
    let rows = choose|rows: Seq<(u128, DeploymentDBResponse<L>)>|
        rows.len() == models@.len() && r@ == #[trigger] rows_map(rows, rows.len() as int)
            && forall|i: int|
            0 <= i < rows.len() ==> (#[trigger] rows[i]).0 == models@[i].id && is_read(
                rows[i].1,
                models@[i],
            );
    crate::grouping::law_last_row_stays(rows, rows.len() as int, id);
    assert(rows[i].0 == id);
    assert forall|j: int| i < j < rows.len() implies (#[trigger] rows[j]).0 != id by {
        assert(models@[j].id != models@[i].id);
    }
}

/// Components by composite model: each row's component is in the list of the model
/// that the row names, and no list has more.
pub proof fn law_components_are_found_by_model(
    rows: Vec<DeploymentComponentRow>,
    r: HashMap<u128, Vec<DeploymentComponentDBResponse>>,
    i: int,
)
    requires
        call_ensures(components_by_composite, (rows,), r),
        0 <= i < rows@.len(),
    ensures
        ({
            let id = rows@[i].composite_model_id;
            let place = crate::grouping::rows_with(keyed_components(rows@), id, i);
            &&& r@.contains_key(id)
            &&& 0 <= place < r@[id]@.len()
            &&& r@[id]@[place].id == rows@[i].id
            &&& r@[id]@[place].deployed_model_id == rows@[i].deployed_model_id
            &&& r@[id]@[place].weight == rows@[i].weight
            &&& r@[id]@[place].enabled == rows@[i].enabled
            &&& r@[id]@[place].sort_order == rows@[i].sort_order
        }),
{
    let keyed = keyed_components(rows@);
    assert(gives_values(r@, keyed, keyed.len() as int, rows@[i].composite_model_id));
    crate::grouping::law_grouping_keeps_every_row(r@, keyed, i);
}

/// Components are handed out in order, each as its row holds it.
pub proof fn law_listed_components_are_as_stored(
    rows: Vec<DeploymentComponentRow>,
    r: Vec<DeploymentComponentDBResponse>,
    i: int,
)
    requires
        call_ensures(component_responses, (rows,), r),
        0 <= i < rows@.len(),
    ensures
        r@.len() == rows@.len(),
        r@[i].id == rows@[i].id,
        r@[i].weight == rows@[i].weight,
        r@[i].enabled == rows@[i].enabled,
        r@[i].sort_order == rows@[i].sort_order,
        r@[i].deployed_model_id == rows@[i].deployed_model_id,
        r@[i].model_alias@ == rows@[i].model_alias@,
        r@[i].endpoint_id == rows@[i].endpoint_id,
{
}

/// A model type that is written by name reads back, and so does a strategy.
pub proof fn law_names_that_are_written_read_back(
    t: ModelType,
    name: &str,
    read: Option<ModelType>,
    s: LoadBalancingStrategy,
    strategy: &str,
    stored: Option<String>,
    back: LoadBalancingStrategy,
)
    requires
        call_ensures(model_type_to_string, (&t,), name),
        call_ensures(parse_model_type, (name,), read),
        call_ensures(LoadBalancingStrategy::as_str, (s,), strategy),
        stored is Some,
        (stored->0)@ == strategy@,
        call_ensures(LoadBalancingStrategy::parse_or_default, (&stored,), back),
    ensures
        read == Some(t),
        back == s,
{
    law_model_type_reads_back(t);
    law_strategies_read_back(s, strategy@);
}

/// The other builders of a filter set their own part too, and keep the rest.
pub proof fn law_filters_are_built_list_by_list(
    f: DeploymentFilter,
    groups: Vec<u128>,
    statuses: Vec<ModelStatus>,
    aliases: Vec<String>,
    search: String,
    a: DeploymentFilter,
    b: DeploymentFilter,
    c: DeploymentFilter,
    d: DeploymentFilter,
)
    requires
        call_ensures(DeploymentFilter::with_groups, (f, groups), a),
        call_ensures(DeploymentFilter::with_statuses, (a, statuses), b),
        call_ensures(DeploymentFilter::with_aliases, (b, aliases), c),
        call_ensures(DeploymentFilter::with_search, (c, search), d),
    ensures
        d.group_ids == Some(groups),
        d.statuses == Some(statuses),
        d.aliases == Some(aliases),
        d.search == Some(search),
        d.skip == f.skip,
        d.limit == f.limit,
        d.endpoint_id == f.endpoint_id,
        d.deleted == f.deleted,
        d.accessible_to == f.accessible_to,
        d.is_composite == f.is_composite,
{
}

/// A deployment that was written or read is handed out as it is stored, each price
/// included.
pub proof fn law_handed_out_deployments_are_as_stored<L>(
    m: DeployedModel<L>,
    written: DeploymentDBResponse<L>,
    read: DeploymentDBResponse<L>,
)
    requires
        call_ensures(written_deployment::<L>, (m,), written),
        call_ensures(read_deployment::<L>, (m,), read),
    ensures
        written.provider_pricing == m.downstream_pricing,
        read.provider_pricing == m.downstream_pricing,
        written.id == m.id,
        read.id == m.id,
        written.alias@ == m.alias@,
        read.alias@ == m.alias@,
        written.capacity == m.capacity,
        read.capacity == m.capacity,
        written.batch_capacity == m.batch_capacity,
        read.batch_capacity == m.batch_capacity,
        written.model_type is Some ==> m.model_type is Some && model_type_name(
            written.model_type->0,
        ) == (m.model_type->0)@,
        read.model_type is Some ==> read.model_type == written.model_type,
        read.model_type is None ==> written.model_type is None || written.model_type->0 is Reranker,
{
}

/// The statuses of a fallback by default: too many requests, and the failures of a
/// server but for what it cannot do.
pub proof fn lemma_default_statuses()
    ensures
        forall|code: i32| #[trigger]
            default_fallback_statuses().contains(code) <==> code == 429 || code == 500 || 502
                <= code <= 504,
{
    let codes = default_fallback_statuses();
    assert(codes[0] == 429 && codes[1] == 500 && codes[2] == 502 && codes[3] == 503 && codes[4]
        == 504);
    assert forall|code: i32| code == 429 || code == 500 || 502 <= code <= 504 implies #[trigger]
        codes.contains(code) by {}
}

/// Statuses that are stored are those on which a request falls back; where none are
/// stored it falls back on the default ones.
pub proof fn law_missing_statuses_are_the_default_ones(
    stored: Option<Vec<i32>>,
    r: Vec<i32>,
    code: i32,
)
    requires
        call_ensures(fallback_statuses, (stored,), r),
    ensures
        stored is Some ==> r@ == (stored->0)@,
        stored is None ==> (r@.contains(code) <==> code == 429 || code == 500 || 502 <= code
            <= 504),
{
    lemma_default_statuses();
}

/// A column of which nothing is asked is neither flagged nor given a value.
pub proof fn law_unasked_columns_are_left_alone<L, T>(
    c: UpdateColumns<L>,
    request: DeploymentUpdateDBRequest<L>,
    pair: (bool, Option<T>),
)
    requires
        clears_as_asked(c, request),
        is_flagged(pair, None),
    ensures
        !pair.0 && pair.1 is None,
        request.description is None ==> !c.description.0 && c.description.1 is None,
        request.model_type is None ==> !c.model_type.0 && c.model_type.1 is None,
        request.capabilities is None ==> !c.capabilities.0 && c.capabilities.1 is None,
{
}

}
