//! Composite models: virtual models that spread requests over deployed ones by
//! weight.
//!
//! Rates (`L`) are stored and carried through as they are.

use std::collections::HashMap;
use vstd::prelude::*;
use crate::deployments::{
    checked_alias, default_fallback_statuses, fallback_statuses, flag_or, is_blank, is_flagged,
    is_given_blank, model_type_name, model_type_on_write, optional_strategy_name,
    optional_type_name, or_default, law_model_type_reads_back, lemma_default_statuses,
    page_clause, rejects_field, strategy_name_or_none, trimmed_or_none, type_name_or_none,
    written_model_type, LoadBalancingStrategy, ModelType,
};
use crate::errors::DbError;
use crate::grouping::{by_id, gives_values, group_by_id, groups, rows_map};
use crate::names::{str_or_none, text_or_none};
use crate::query::{flagged, flagged_text, like_pattern, search_pattern, Piece, SqlQuery};
use crate::text::trimmed;
use crate::time::Timestamp;

verus! {

/// What a list of composite models is narrowed to.
#[derive(Debug)]
pub struct CompositeModelFilter {
    pub skip: i64,
    pub limit: i64,
    /// A user who must have access.
    pub accessible_to: Option<u128>,
    /// Text to find in alias or description.
    pub search: Option<String>,
}

impl CompositeModelFilter {
    /// A page of all composite models.
    pub fn new(skip: i64, limit: i64) -> (r: CompositeModelFilter)
        ensures
            r == (CompositeModelFilter { skip, limit, accessible_to: None, search: None }),
    {
        CompositeModelFilter { skip, limit, accessible_to: None, search: None }
    }

    /// Narrows to what a user has access to.
    pub fn with_accessible_to(self, user_id: u128) -> (r: CompositeModelFilter)
        ensures
            r == (CompositeModelFilter { accessible_to: Some(user_id), ..self }),
    {
        let mut filter = self;
        filter.accessible_to = Some(user_id);
        filter
    }

    /// Narrows to models in which a text is found.
    pub fn with_search(self, search: String) -> (r: CompositeModelFilter)
        ensures
            r == (CompositeModelFilter { search: Some(search), ..self }),
    {
        let mut filter = self;
        filter.search = Some(search);
        filter
    }
}

/// The clause for a user's access: through the user's groups, and through the
/// group of everyone but the system user.
pub open spec fn composite_access_clause(f: CompositeModelFilter) -> Seq<Piece> {
    match f.accessible_to {
        Some(user) => seq![
            Piece::Text(" AND id IN ("@),
            Piece::Text(
                "SELECT cmg.composite_model_id FROM composite_model_groups cmg WHERE cmg.group_id IN ("@,
            ),
            Piece::Text("SELECT ug.group_id FROM user_groups ug WHERE ug.user_id = "@),
            Piece::Id(user),
            Piece::Text(
                " UNION SELECT '00000000-0000-0000-0000-000000000000'::uuid WHERE "@,
            ),
            Piece::Id(user),
            Piece::Text(" != '00000000-0000-0000-0000-000000000000'::uuid"@),
            Piece::Text("))"@),
        ],
        None => Seq::empty(),
    }
}

/// The clause for a search.
pub open spec fn composite_search_clause(f: CompositeModelFilter) -> Seq<Piece> {
    match f.search {
        Some(search) => seq![
            Piece::Text(" AND (LOWER(alias) LIKE "@),
            Piece::Value(like_pattern(search@)),
            Piece::Text(" OR LOWER(COALESCE(description, '')) LIKE "@),
            Piece::Value(like_pattern(search@)),
            Piece::Text(")"@),
        ],
        None => Seq::empty(),
    }
}

/// Everything that a filter narrows to. The page is no part of it.
pub open spec fn composite_clauses(f: CompositeModelFilter) -> Seq<Piece> {
    composite_access_clause(f) + composite_search_clause(f)
}

fn push_clauses(query: &mut SqlQuery, f: &CompositeModelFilter)
    ensures
        final(query)@ == old(query)@ + composite_clauses(*f),
{
    if let Some(user_id) = f.accessible_to {
        query.push(" AND id IN (");
        query.push(
            "SELECT cmg.composite_model_id FROM composite_model_groups cmg WHERE cmg.group_id IN (",
        );
        query.push("SELECT ug.group_id FROM user_groups ug WHERE ug.user_id = ");
        query.bind_id(user_id);
        query.push(" UNION SELECT '00000000-0000-0000-0000-000000000000'::uuid WHERE ");
        query.bind_id(user_id);
        query.push(" != '00000000-0000-0000-0000-000000000000'::uuid");
        query.push("))");
    }
    assert(query@ =~= old(query)@ + composite_access_clause(*f));
    if let Some(search) = &f.search {
        let pattern = search_pattern(search.as_str());
        query.push(" AND (LOWER(alias) LIKE ");
        query.bind_text(pattern.as_str());
        query.push(" OR LOWER(COALESCE(description, '')) LIKE ");
        query.bind_text(pattern.as_str());
        query.push(")");
    }
    assert(query@ =~= old(query)@ + composite_clauses(*f));
}

/// The query for a page of composite models.
pub fn composite_list_query(filter: &CompositeModelFilter) -> (r: SqlQuery)
    ensures
        r@ == seq![Piece::Text("SELECT * FROM composite_models WHERE 1=1"@)] + composite_clauses(
            *filter,
        ) + page_clause(filter.limit, filter.skip),
{
    let mut query = SqlQuery::new("SELECT * FROM composite_models WHERE 1=1");
    push_clauses(&mut query, filter);
    query.push(" ORDER BY created_at DESC LIMIT ");
    query.bind_int(filter.limit);
    query.push(" OFFSET ");
    query.bind_int(filter.skip);
    assert(query@ =~= seq![Piece::Text("SELECT * FROM composite_models WHERE 1=1"@)]
        + composite_clauses(*filter) + page_clause(filter.limit, filter.skip));
    query
}

/// The query for the number of composite models.
pub fn composite_count_query(filter: &CompositeModelFilter) -> (r: SqlQuery)
    ensures
        r@ == seq![Piece::Text("SELECT COUNT(*) FROM composite_models WHERE 1=1"@)]
            + composite_clauses(*filter),
{
    let mut query = SqlQuery::new("SELECT COUNT(*) FROM composite_models WHERE 1=1");
    push_clauses(&mut query, filter);
    query
}

/// A count counts what all pages of the list hold together: it narrows to the
/// same, whatever the page.
pub proof fn law_composite_count_ignores_the_page(f: CompositeModelFilter, g: CompositeModelFilter)
    requires
        g == (CompositeModelFilter { skip: g.skip, limit: g.limit, ..f }),
    ensures
        composite_clauses(f) == composite_clauses(g),
{
}

/// A composite model as stored.
#[derive(Debug)]
pub struct CompositeModel<L> {
    pub id: u128,
    pub alias: String,
    pub description: Option<String>,
    pub model_type: Option<String>,
    pub requests_per_second: Option<L>,
    pub burst_size: Option<i32>,
    pub capacity: Option<i32>,
    pub batch_capacity: Option<i32>,
    pub lb_strategy: Option<String>,
    pub fallback_enabled: Option<bool>,
    pub fallback_on_rate_limit: Option<bool>,
    pub fallback_on_status: Option<Vec<i32>>,
    pub created_by: u128,
    pub created_at: Timestamp,
    pub updated_at: Timestamp,
}

/// A composite model as handed out.
#[derive(Debug)]
pub struct CompositeModelDBResponse<L> {
    pub id: u128,
    pub alias: String,
    pub description: Option<String>,
    pub model_type: Option<ModelType>,
    pub requests_per_second: Option<L>,
    pub burst_size: Option<i32>,
    pub capacity: Option<i32>,
    pub batch_capacity: Option<i32>,
    pub lb_strategy: LoadBalancingStrategy,
    pub fallback_enabled: bool,
    pub fallback_on_rate_limit: bool,
    pub fallback_on_status: Vec<i32>,
    pub created_by: u128,
    pub created_at: Timestamp,
    pub updated_at: Timestamp,
}

/// Whether a response is that of a stored composite model.
pub open spec fn is_composite_response<L>(r: CompositeModelDBResponse<L>, m: CompositeModel<L>) -> bool {
    &&& r.id == m.id
    &&& r.alias == m.alias
    &&& r.description == m.description
    &&& r.model_type == written_model_type(text_or_none(m.model_type))
    &&& r.requests_per_second == m.requests_per_second
    &&& r.burst_size == m.burst_size
    &&& r.capacity == m.capacity
    &&& r.batch_capacity == m.batch_capacity
    &&& r.lb_strategy == LoadBalancingStrategy::of_name(text_or_none(m.lb_strategy))
    &&& r.fallback_enabled == flag_or(m.fallback_enabled, true)
    &&& r.fallback_on_rate_limit == flag_or(m.fallback_on_rate_limit, true)
    &&& r.fallback_on_status@ == (match m.fallback_on_status {
        Some(codes) => codes@,
        None => default_fallback_statuses(),
    })
    &&& r.created_by == m.created_by
    &&& r.created_at == m.created_at
    &&& r.updated_at == m.updated_at
}

/// A stored composite model as handed out: fallback is on unless switched off.
pub fn composite_response<L>(m: CompositeModel<L>) -> (r: CompositeModelDBResponse<L>)
    ensures
        is_composite_response(r, m),
{
    let model_type = model_type_on_write(&m.model_type);
    let lb_strategy = LoadBalancingStrategy::parse_or_default(&m.lb_strategy);
    CompositeModelDBResponse {
        id: m.id,
        alias: m.alias,
        description: m.description,
        model_type,
        requests_per_second: m.requests_per_second,
        burst_size: m.burst_size,
        capacity: m.capacity,
        batch_capacity: m.batch_capacity,
        lb_strategy,
        fallback_enabled: or_default(m.fallback_enabled, true),
        fallback_on_rate_limit: or_default(m.fallback_on_rate_limit, true),
        fallback_on_status: fallback_statuses(m.fallback_on_status),
        created_by: m.created_by,
        created_at: m.created_at,
        updated_at: m.updated_at,
    }
}

/// Stored composite models as handed out, in order.
pub fn composite_responses<L>(models: Vec<CompositeModel<L>>) -> (r: Vec<
    CompositeModelDBResponse<L>,
>)
    ensures
        r@.len() == models@.len(),
        forall|i: int| 0 <= i < r@.len() ==> is_composite_response(#[trigger] r@[i], models@[i]),
{
    let ghost all = models@;
    let mut out: Vec<CompositeModelDBResponse<L>> = Vec::new();
    for m in it: models
        invariant
            it.seq() == all,
            out@.len() == it.index(),
            forall|j: int|
                0 <= j < it.index() ==> is_composite_response(#[trigger] out@[j], all[j]),
    {
        out.push(composite_response(m));
    }
    out
}

/// Stored composite models as handed out, by identifier; of several with one
/// identifier the last stays.
pub fn composites_by_id<L>(models: Vec<CompositeModel<L>>) -> (r: HashMap<
    u128,
    CompositeModelDBResponse<L>,
>)
    ensures
        exists|rows: Seq<(u128, CompositeModelDBResponse<L>)>|
            rows.len() == models@.len() && r@ == #[trigger] rows_map(rows, rows.len() as int)
                && forall|i: int|
                0 <= i < rows.len() ==> (#[trigger] rows[i]).0 == models@[i].id
                    && is_composite_response(rows[i].1, models@[i]),
{
    let ghost all = models@;
    let mut rows: Vec<(u128, CompositeModelDBResponse<L>)> = Vec::new();
    for m in it: models
        invariant
            it.seq() == all,
            rows@.len() == it.index(),
            forall|j: int|
                0 <= j < it.index() ==> (#[trigger] rows@[j]).0 == all[j].id
                    && is_composite_response(rows@[j].1, all[j]),
    {
        let id: u128 = m.id;
        rows.push((id, composite_response(m)));
    }
    let ghost listed = rows@;
    let r = by_id(rows);
    assert(r@ == rows_map(listed, listed.len() as int));
    r
}

/// The columns of a new composite model that are not stored as they are given:
/// the trimmed alias and the names of model type and strategy. The alias may not
/// be blank.
pub fn composite_create_columns(
    alias: &str,
    model_type: Option<ModelType>,
    lb_strategy: Option<LoadBalancingStrategy>,
) -> (r: Result<(String, Option<&'static str>, Option<&'static str>), DbError>)
    ensures
        if is_blank(alias@) {
            rejects_field(r, "alias"@)
        } else {
            r matches Ok((a, t, s)) && a@ == trimmed(alias@) && str_or_none(t)
                == type_name_or_none(model_type) && str_or_none(s) == strategy_name_or_none(
                lb_strategy,
            )
        },
{
    match checked_alias(alias) {
        Ok(a) => Ok((a, optional_type_name(model_type), optional_strategy_name(lb_strategy))),
        Err(e) => Err(e),
    }
}

/// A change of a composite model. Of the fields that can be cleared, nothing
/// leaves the column alone, an empty value clears it, and a value sets it.
#[derive(Debug)]
pub struct CompositeModelUpdateDBRequest<L> {
    pub alias: Option<String>,
    pub description: Option<Option<String>>,
    pub model_type: Option<Option<ModelType>>,
    pub requests_per_second: Option<Option<L>>,
    pub burst_size: Option<Option<i32>>,
    pub capacity: Option<Option<i32>>,
    pub batch_capacity: Option<Option<i32>>,
    pub lb_strategy: Option<LoadBalancingStrategy>,
    pub fallback_enabled: Option<bool>,
    pub fallback_on_rate_limit: Option<bool>,
    pub fallback_on_status: Option<Vec<i32>>,
}

/// The parameters of an update that are not stored as they are given.
#[derive(Debug)]
pub struct CompositeUpdateColumns<'a, L> {
    pub alias: Option<String>,
    pub description: (bool, Option<&'a str>),
    pub model_type: (bool, Option<&'static str>),
    pub requests_per_second: (bool, Option<L>),
    pub burst_size: (bool, Option<i32>),
    pub capacity: (bool, Option<i32>),
    pub batch_capacity: (bool, Option<i32>),
    pub lb_strategy: Option<&'static str>,
}

/// Whether the parameters of an update are those of a request.
pub open spec fn updates_as_asked<L>(
    c: CompositeUpdateColumns<L>,
    request: CompositeModelUpdateDBRequest<L>,
) -> bool {
    &&& text_or_none(c.alias) == trimmed_or_none(text_or_none(request.alias))
    &&& c.description.0 == request.description is Some
    &&& str_or_none(c.description.1) == (match request.description {
        Some(value) => text_or_none(value),
        None => None,
    })
    &&& c.model_type.0 == request.model_type is Some
    &&& str_or_none(c.model_type.1) == (match request.model_type {
        Some(value) => type_name_or_none(value),
        None => None,
    })
    &&& is_flagged(c.requests_per_second, request.requests_per_second)
    &&& is_flagged(c.burst_size, request.burst_size)
    &&& is_flagged(c.capacity, request.capacity)
    &&& is_flagged(c.batch_capacity, request.batch_capacity)
    &&& str_or_none(c.lb_strategy) == strategy_name_or_none(request.lb_strategy)
}

/// The parameters of an update. The alias may not be blank where it is given.
pub fn composite_update_columns<'a, L: Copy>(
    request: &'a CompositeModelUpdateDBRequest<L>,
) -> (r: Result<CompositeUpdateColumns<'a, L>, DbError>)
    ensures
        if is_given_blank(text_or_none(request.alias)) {
            rejects_field(r, "alias"@)
        } else {
            r matches Ok(c) && updates_as_asked(c, *request)
        },
{
    let alias: Option<String> = match &request.alias {
        Some(a) => match checked_alias(a.as_str()) {
            Ok(t) => Some(t),
            Err(e) => {
                return Err(e);
            },
        },
        None => None,
    };
    let model_type: (bool, Option<&'static str>) = match request.model_type {
        Some(t) => (true, optional_type_name(t)),
        None => (false, None),
    };
    Ok(
        CompositeUpdateColumns {
            alias,
            description: flagged_text(&request.description),
            model_type,
            requests_per_second: flagged(request.requests_per_second),
            burst_size: flagged(request.burst_size),
            capacity: flagged(request.capacity),
            batch_capacity: flagged(request.batch_capacity),
            lb_strategy: optional_strategy_name(request.lb_strategy),
        },
    )
}

/// Whether a component may have a weight.
pub open spec fn is_weight(weight: i32) -> bool {
    1 <= weight <= 100
}

/// Checks the weight of a component.
pub fn check_weight(weight: i32) -> (r: Result<(), DbError>)
    ensures
        if is_weight(weight) {
            r is Ok
        } else {
            rejects_field(r, "weight"@)
        },
{
    if weight < 1 || weight > 100 {
        return Err(DbError::InvalidModelField { field: "weight" });
    }
    Ok(())
}

/// Checks the new weight of a component, where there is one.
pub fn check_new_weight(weight: Option<i32>) -> (r: Result<(), DbError>)
    ensures
        if weight matches Some(w) && !is_weight(w) {
            rejects_field(r, "weight"@)
        } else {
            r is Ok
        },
{
    match weight {
        Some(w) => check_weight(w),
        None => Ok(()),
    }
}

/// Whether all components may have the weights they are given.
pub open spec fn are_weights(components: Seq<(u128, i32, bool)>) -> bool {
    forall|i: int| 0 <= i < components.len() ==> is_weight((#[trigger] components[i]).1)
}

/// Checks the weights of all components that are to replace those of a composite
/// model. One bad weight rejects the whole list.
pub fn check_weights(components: &Vec<(u128, i32, bool)>) -> (r: Result<(), DbError>)
    ensures
        if are_weights(components@) {
            r is Ok
        } else {
            rejects_field(r, "weight"@)
        },
{
    let mut i: usize = 0;
    while i < components.len()
        invariant
            i <= components@.len(),
            forall|j: int| 0 <= j < i ==> is_weight((#[trigger] components@[j]).1),
        decreases components@.len() - i,
    {
        let weight: i32 = components[i].1;
        match check_weight(weight) {
            Ok(()) => {},
            Err(e) => {
                assert(!is_weight(components@[i as int].1));
                return Err(e);
            },
        }
        i = i + 1;
    }
    Ok(())
}

/// A component of a composite model.
#[derive(Debug)]
pub struct CompositeModelComponentDBResponse {
    pub id: u128,
    pub composite_model_id: u128,
    pub deployed_model_id: u128,
    pub weight: i32,
    pub enabled: bool,
    pub created_at: Timestamp,
}

/// That a group may use a composite model.
#[derive(Debug)]
pub struct CompositeModelGroupDBResponse {
    pub id: u128,
    pub composite_model_id: u128,
    pub group_id: u128,
    pub granted_by: Option<u128>,
    pub granted_at: Timestamp,
}

/// Components with the composite model each belongs to.
pub open spec fn keyed_composite_components(rows: Seq<CompositeModelComponentDBResponse>) -> Seq<
    (u128, CompositeModelComponentDBResponse),
> {
    rows.map_values(|row: CompositeModelComponentDBResponse| (row.composite_model_id, row))
}

/// Components by composite model, each list in order.
pub fn composite_components_by_model(rows: Vec<CompositeModelComponentDBResponse>) -> (r: HashMap<
    u128,
    Vec<CompositeModelComponentDBResponse>,
>)
    ensures
        groups(r@, keyed_composite_components(rows@)),
        forall|id: u128| #[trigger]
            gives_values(r@, keyed_composite_components(rows@), rows@.len() as int, id),
{
    let ghost all = rows@;
    let mut keyed: Vec<(u128, CompositeModelComponentDBResponse)> = Vec::new();
    for row in it: rows
        invariant
            it.seq() == all,
            keyed@.len() == it.index(),
            forall|j: int|
                0 <= j < it.index() ==> keyed@[j] == (
                    (#[trigger] all[j]).composite_model_id,
                    all[j],
                ),
    {
        let id: u128 = row.composite_model_id;
        keyed.push((id, row));
    }
    assert(keyed@ =~= keyed_composite_components(all));
    group_by_id(keyed)
}

/// A composite model is handed out as it is stored, each field under its own name.
/// Fallback is on unless it is switched off.
pub proof fn law_responses_keep_their_composites<L>(
    r: CompositeModelDBResponse<L>,
    m: CompositeModel<L>,
)
    requires
        is_composite_response(r, m),
    ensures
        r.id == m.id,
        r.alias@ == m.alias@,
        r.description == m.description,
        r.requests_per_second == m.requests_per_second,
        r.burst_size == m.burst_size,
        r.capacity == m.capacity,
        r.batch_capacity == m.batch_capacity,
        r.created_by == m.created_by,
        r.created_at == m.created_at,
        r.updated_at == m.updated_at,
        r.fallback_enabled <==> m.fallback_enabled != Some(false),
        r.fallback_on_rate_limit <==> m.fallback_on_rate_limit != Some(false),
        m.fallback_on_status is Some ==> r.fallback_on_status@ == (m.fallback_on_status->0)@,
        m.fallback_on_status is None ==> forall|code: i32| #[trigger]
            r.fallback_on_status@.contains(code) <==> code == 429 || code == 500 || 502 <= code
                <= 504,
        m.lb_strategy is None ==> r.lb_strategy is WeightedRandom,
        m.lb_strategy is Some && (m.lb_strategy->0)@ == "priority"@ ==> r.lb_strategy is Priority,
        m.lb_strategy is Some && (m.lb_strategy->0)@ != "priority"@ ==> r.lb_strategy is WeightedRandom,
        m.model_type is None ==> r.model_type is None,
        r.model_type is Some ==> model_type_name(r.model_type->0) == (m.model_type->0)@,
        r.model_type is None && m.model_type is Some ==> forall|t: ModelType| #[trigger]
            model_type_name(t) != (m.model_type->0)@,
{
    lemma_default_statuses();
    if m.model_type is Some && r.model_type is None {
        assert forall|t: ModelType| #[trigger] model_type_name(t) != (m.model_type->0)@ by {
            law_model_type_reads_back(t);
        }
    }
}

/// An update of a composite model changes each column that can be cleared on its
/// own: where nothing is asked it keeps what is stored, and otherwise it is what
/// is asked for, nothing included.
pub proof fn law_each_composite_column_changes_on_its_own<L>(
    c: CompositeUpdateColumns<L>,
    request: CompositeModelUpdateDBRequest<L>,
    stored: CompositeModel<L>,
)
    requires
        updates_as_asked(c, request),
    ensures
        (if c.requests_per_second.0 {
            c.requests_per_second.1
        } else {
            stored.requests_per_second
        }) == (if request.requests_per_second is Some {
            request.requests_per_second->0
        } else {
            stored.requests_per_second
        }),
        (if c.burst_size.0 {
            c.burst_size.1
        } else {
            stored.burst_size
        }) == (if request.burst_size is Some {
            request.burst_size->0
        } else {
            stored.burst_size
        }),
        (if c.capacity.0 {
            c.capacity.1
        } else {
            stored.capacity
        }) == (if request.capacity is Some {
            request.capacity->0
        } else {
            stored.capacity
        }),
        (if c.batch_capacity.0 {
            c.batch_capacity.1
        } else {
            stored.batch_capacity
        }) == (if request.batch_capacity is Some {
            request.batch_capacity->0
        } else {
            stored.batch_capacity
        }),
        c.alias is Some <==> request.alias is Some,
        c.alias is Some ==> (c.alias->0)@ == trimmed((request.alias->0)@),
        c.description.0 <==> request.description is Some,
        c.description.0 ==> (c.description.1 is Some <==> request.description->0 is Some),
        c.description.0 && c.description.1 is Some ==> (c.description.1->0)@ == (
        request.description->0->0)@,
        c.model_type.0 <==> request.model_type is Some,
        c.model_type.0 ==> (c.model_type.1 is Some <==> request.model_type->0 is Some),
        c.model_type.0 && c.model_type.1 is Some ==> (c.model_type.1->0)@ == model_type_name(
            request.model_type->0->0,
        ),
        c.lb_strategy is Some <==> request.lb_strategy is Some,
        c.lb_strategy is Some ==> (c.lb_strategy->0)@ == (request.lb_strategy->0).name(),
{
}

/// A component may weigh from one to a hundred, and nothing else.
pub proof fn law_weights_are_percentages(weight: i32)
    ensures
        is_weight(weight) <==> 0 < weight && weight <= 100,
{
}

/// Each filter on composite models that is set binds its own value, and one that
/// is not set adds nothing.
pub proof fn law_composite_filters_bind_their_values(f: CompositeModelFilter)
    ensures
        f.accessible_to is Some ==> composite_access_clause(f).len() == 8
            && composite_access_clause(f)[3] == Piece::Id(f.accessible_to->0)
            && composite_access_clause(f)[5] == Piece::Id(f.accessible_to->0),
        f.accessible_to is None ==> composite_access_clause(f).len() == 0,
        f.search is Some ==> composite_search_clause(f).len() == 5 && composite_search_clause(f)[1]
            == Piece::Value(seq!['%'] + crate::text::lower_case((f.search->0)@) + seq!['%'])
            && composite_search_clause(f)[3] == composite_search_clause(f)[1],
        f.search is None ==> composite_search_clause(f).len() == 0,
        composite_clauses(f).len() == composite_access_clause(f).len() + composite_search_clause(
            f,
        ).len(),
{
    reveal_strlit("%");
    if f.search is Some {
        assert(like_pattern((f.search->0)@) =~= seq!['%'] + crate::text::lower_case(
            (f.search->0)@,
        ) + seq!['%']);
    }
}

/// A component belongs to the composite model that it names.
pub proof fn law_components_are_keyed_by_their_model(
    rows: Seq<CompositeModelComponentDBResponse>,
    i: int,
)
    requires
        0 <= i < rows.len(),
    ensures
        keyed_composite_components(rows).len() == rows.len(),
        keyed_composite_components(rows)[i].0 == rows[i].composite_model_id,
        keyed_composite_components(rows)[i].1 == rows[i],
{
}

/// An update of a composite model is refused exactly for a blank alias, and
/// otherwise changes each column on its own.
pub proof fn law_composite_updates_are_as_asked<'a, L: Copy>(
    request: &'a CompositeModelUpdateDBRequest<L>,
    r: Result<CompositeUpdateColumns<'a, L>, DbError>,
    stored: CompositeModel<L>,
)
    requires
        call_ensures(composite_update_columns::<L>, (request,), r),
    ensures
        r is Err <==> request.alias is Some && is_blank((request.alias->0)@),
        r matches Ok(c) ==> (if c.capacity.0 {
            c.capacity.1
        } else {
            stored.capacity
        }) == (if request.capacity is Some {
            request.capacity->0
        } else {
            stored.capacity
        }) && (if c.batch_capacity.0 {
            c.batch_capacity.1
        } else {
            stored.batch_capacity
        }) == (if request.batch_capacity is Some {
            request.batch_capacity->0
        } else {
            stored.batch_capacity
        }) && (if c.burst_size.0 {
            c.burst_size.1
        } else {
            stored.burst_size
        }) == (if request.burst_size is Some {
            request.burst_size->0
        } else {
            stored.burst_size
        }) && (c.alias is Some ==> (c.alias->0)@ == trimmed((request.alias->0)@)),
{
    if let Ok(c) = r {
        law_each_composite_column_changes_on_its_own(c, *request, stored);
    }
}

/// A new composite model is refused exactly for a blank alias, and otherwise has
/// its alias without white space around it and its type and strategy by name.
pub proof fn law_new_composites_are_as_asked(
    alias: &str,
    model_type: Option<ModelType>,
    strategy: Option<LoadBalancingStrategy>,
    r: Result<(String, Option<&'static str>, Option<&'static str>), DbError>,
)
    requires
        call_ensures(composite_create_columns, (alias, model_type, strategy), r),
    ensures
        r is Err <==> is_blank(alias@),
        r matches Ok(c) ==> c.0@ == trimmed(alias@) && (c.1 is Some <==> model_type is Some) && (
        c.1 is Some ==> (c.1->0)@ == model_type_name(model_type->0)) && (c.2 is Some
            <==> strategy is Some) && (c.2 is Some ==> (c.2->0)@ == (strategy->0).name()),
{
}

/// Components are accepted exactly where each weighs from one to a hundred.
pub proof fn law_only_percentages_are_accepted(
    components: Vec<(u128, i32, bool)>,
    r: Result<(), DbError>,
    weight: Option<i32>,
    one: Result<(), DbError>,
)
    requires
        call_ensures(check_weights, (&components,), r),
        call_ensures(check_new_weight, (weight,), one),
    ensures
        r is Ok <==> forall|i: int|
            0 <= i < components@.len() ==> 0 < (#[trigger] components@[i]).1
                && components@[i].1 <= 100,
        one is Ok <==> weight is None || (0 < weight->0 && weight->0 <= 100),
{
    assert(r is Ok <==> are_weights(components@));
    if are_weights(components@) {
        assert forall|i: int| 0 <= i < components@.len() implies 0 < (#[trigger] components@[i]).1
            && components@[i].1 <= 100 by {
            assert(is_weight(components@[i].1));
        }
    }
}

/// Composite models are listed in the order in which they are read, each as it is
/// stored.
pub proof fn law_listed_composites_are_as_stored<L>(
    models: Vec<CompositeModel<L>>,
    r: Vec<CompositeModelDBResponse<L>>,
    i: int,
)
    requires
        call_ensures(composite_responses::<L>, (models,), r),
        0 <= i < models@.len(),
    ensures
        r@.len() == models@.len(),
        r@[i].id == models@[i].id,
        r@[i].alias@ == models@[i].alias@,
        r@[i].capacity == models@[i].capacity,
        r@[i].batch_capacity == models@[i].batch_capacity,
        r@[i].fallback_enabled <==> models@[i].fallback_enabled != Some(false),
        r@[i].fallback_on_rate_limit <==> models@[i].fallback_on_rate_limit != Some(false),
{
    assert(is_composite_response(r@[i], models@[i]));
}

/// Composite models by identifier: every one that no later one replaces is under
/// its own identifier, as it is stored.
pub proof fn law_composites_are_found_by_identifier<L>(
    models: Vec<CompositeModel<L>>,
    r: HashMap<u128, CompositeModelDBResponse<L>>,
    i: int,
)
    requires
        call_ensures(composites_by_id::<L>, (models,), r),
        0 <= i < models@.len(),
        forall|j: int| i < j < models@.len() ==> (#[trigger] models@[j]).id != models@[i].id,
    ensures
        r@.contains_key(models@[i].id),
        r@[models@[i].id].id == models@[i].id,
        r@[models@[i].id].alias@ == models@[i].alias@,
        r@[models@[i].id].capacity == models@[i].capacity,
        r@[models@[i].id].batch_capacity == models@[i].batch_capacity,
{
    let id = models@[i].id;
    let rows = choose|rows: Seq<(u128, CompositeModelDBResponse<L>)>|
        rows.len() == models@.len() && r@ == #[trigger] rows_map(rows, rows.len() as int)
            && forall|i: int|
            0 <= i < rows.len() ==> (#[trigger] rows[i]).0 == models@[i].id
                && is_composite_response(rows[i].1, models@[i]);
    crate::grouping::law_last_row_stays(rows, rows.len() as int, id);
    assert(rows[i].0 == id);
    assert forall|j: int| i < j < rows.len() implies (#[trigger] rows[j]).0 != id by {
        assert(models@[j].id != models@[i].id);
    }
}

/// A page and a count of the same filter on composite models narrow to the same,
/// and the page ends with its limit and its offset; each builder sets its own part.
pub proof fn law_composite_pages_and_counts_agree(
    f: CompositeModelFilter,
    page: SqlQuery,
    count: SqlQuery,
    user: u128,
    search: String,
    a: CompositeModelFilter,
    b: CompositeModelFilter,
)
    requires
        call_ensures(composite_list_query, (&f,), page),
        call_ensures(composite_count_query, (&f,), count),
        call_ensures(CompositeModelFilter::with_accessible_to, (f, user), a),
        call_ensures(CompositeModelFilter::with_search, (a, search), b),
    ensures
        page@.len() == count@.len() + 4,
        page@.subrange(1, count@.len() as int) == count@.skip(1),
        page@[page@.len() - 3] == Piece::Int(f.limit),
        page@[page@.len() - 1] == Piece::Int(f.skip),
        b.accessible_to == Some(user),
        b.search == Some(search),
        b.skip == f.skip,
        b.limit == f.limit,
{
    assert(page@.subrange(1, count@.len() as int) =~= count@.skip(1));
}

/// Components by composite model: each is in the list of the model that it names.
pub proof fn law_composite_components_are_found_by_model(
    rows: Vec<CompositeModelComponentDBResponse>,
    r: HashMap<u128, Vec<CompositeModelComponentDBResponse>>,
    i: int,
)
    requires
        call_ensures(composite_components_by_model, (rows,), r),
        0 <= i < rows@.len(),
    ensures
        ({
            let id = rows@[i].composite_model_id;
            let place = crate::grouping::rows_with(keyed_composite_components(rows@), id, i);
            &&& r@.contains_key(id)
            &&& 0 <= place < r@[id]@.len()
            &&& r@[id]@[place] == rows@[i]
        }),
{
    let keyed = keyed_composite_components(rows@);
    assert(gives_values(r@, keyed, keyed.len() as int, rows@[i].composite_model_id));
    crate::grouping::law_grouping_keeps_every_row(r@, keyed, i);
}

/// A column of which nothing is asked is neither flagged nor given a value.
pub proof fn law_unasked_composite_columns_are_left_alone<L>(
    c: CompositeUpdateColumns<L>,
    request: CompositeModelUpdateDBRequest<L>,
)
    requires
        updates_as_asked(c, request),
    ensures
        request.description is None ==> !c.description.0 && c.description.1 is None,
        request.model_type is None ==> !c.model_type.0 && c.model_type.1 is None,
{
}

}
