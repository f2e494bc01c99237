//! How providers of models are shown.

use vstd::prelude::*;
use crate::names::{borrowed, str_or_none, text_or_none};
use crate::query::flagged_text;

verus! {

/// A provider that some model names.
#[derive(Debug)]
pub struct KnownProviderDBResponse {
    pub provider_key: String,
    pub display_name: String,
    pub model_count: i64,
}

/// A row of the query for providers.
#[derive(Debug)]
pub struct KnownProviderRow {
    pub provider_key: Option<String>,
    pub display_name: Option<String>,
    pub model_count: Option<i64>,
}

/// The provider of a row, if the row is whole.
pub open spec fn provider_of(row: KnownProviderRow) -> Option<KnownProviderDBResponse> {
    match (row.provider_key, row.display_name, row.model_count) {
        (Some(provider_key), Some(display_name), Some(model_count)) => Some(
            KnownProviderDBResponse { provider_key, display_name, model_count },
        ),
        _ => None,
    }
}

/// The providers of the first `n` rows, in order; rows that are not whole give
/// none.
pub open spec fn providers_of(rows: Seq<KnownProviderRow>, n: int) -> Seq<KnownProviderDBResponse>
    decreases n,
{
    if n <= 0 {
        Seq::empty()
    } else {
        match provider_of(rows[n - 1]) {
            Some(p) => providers_of(rows, n - 1).push(p),
            None => providers_of(rows, n - 1),
        }
    }
}

/// The providers of rows, in order; rows that are not whole give none.
pub fn known_providers(rows: Vec<KnownProviderRow>) -> (r: Vec<KnownProviderDBResponse>)
    ensures
        r@ == providers_of(rows@, rows@.len() as int),
{
    let ghost all = rows@;
    let mut out: Vec<KnownProviderDBResponse> = Vec::new();
    for row in it: rows
        invariant
            it.seq() == all,
            out@ == providers_of(all, it.index() as int),
    {
        match (row.provider_key, row.display_name, row.model_count) {
            (Some(provider_key), Some(display_name), Some(model_count)) => {
                out.push(KnownProviderDBResponse { provider_key, display_name, model_count });
            },
            _ => {},
        }
    }
    out
}

/// A change of how a provider is shown. An absent field leaves its column alone;
/// an empty icon clears it.
#[derive(Debug)]
pub struct ProviderDisplayConfigUpdateDBRequest {
    pub display_name: Option<String>,
    pub icon: Option<Option<String>>,
}

/// The parameters of an update: the name, and whether and to what the icon
/// changes.
pub fn provider_update_columns<'a>(request: &'a ProviderDisplayConfigUpdateDBRequest) -> (r: (
    Option<&'a str>,
    bool,
    Option<&'a str>,
))
    ensures
        str_or_none(r.0) == text_or_none(request.display_name),
        r.1 == request.icon is Some,
        str_or_none(r.2) == (match request.icon {
            Some(icon) => text_or_none(icon),
            None => None,
        }),
{
    let (changes, icon) = flagged_text(&request.icon);
    (borrowed(&request.display_name), changes, icon)
}

proof fn lemma_provider_prefix(rows: Seq<KnownProviderRow>, more: Seq<KnownProviderRow>, n: int)
    requires
        n <= rows.len(),
    ensures
        providers_of(rows + more, n) == providers_of(rows, n),
    decreases n,
{
    if n > 0 {
        lemma_provider_prefix(rows, more, n - 1);
        assert((rows + more)[n - 1] == rows[n - 1]);
    }
}

/// One whole row more adds its provider, with its key, its name and its count,
/// and a row that lacks one of them adds nothing.
pub proof fn law_providers_grow_by_their_rows(rows: Seq<KnownProviderRow>, row: KnownProviderRow)
    ensures
        ({
            let before = providers_of(rows, rows.len() as int);
            let after = providers_of(rows + seq![row], (rows.len() + 1) as int);
            let is_whole = row.provider_key is Some && row.display_name is Some
                && row.model_count is Some;
            &&& is_whole ==> after.len() == before.len() + 1 && after.drop_last() == before && Some(
                after.last().provider_key,
            ) == row.provider_key && Some(after.last().display_name) == row.display_name && Some(
                after.last().model_count,
            ) == row.model_count
            &&& !is_whole ==> after == before
        }),
        providers_of(Seq::empty(), 0).len() == 0,
{
    let n = rows.len() as int;
    lemma_provider_prefix(rows, seq![row], n);
    assert((rows + seq![row])[n] == row);
    let before = providers_of(rows, n);
    let after = providers_of(rows + seq![row], n + 1);
    if row.provider_key is Some && row.display_name is Some && row.model_count is Some {
        assert(after.drop_last() =~= before);
    }
}

/// An update of how a provider is shown hands on its name and its icon. An icon
/// that is not given is left alone, and an empty one is cleared.
pub proof fn law_provider_updates_are_as_asked<'a>(
    request: &'a ProviderDisplayConfigUpdateDBRequest,
    r: (Option<&'a str>, bool, Option<&'a str>),
)
    requires
        call_ensures(provider_update_columns, (request,), r),
    ensures
        r.0 is Some <==> request.display_name is Some,
        r.0 is Some ==> (r.0->0)@ == (request.display_name->0)@,
        r.1 <==> request.icon is Some,
        r.1 ==> (r.2 is Some <==> request.icon->0 is Some),
        r.1 && r.2 is Some ==> (r.2->0)@ == (request.icon->0->0)@,
{
}

}
