//! What prompt caching on a model costs.

use vstd::prelude::*;
use crate::amount::Amount;

verus! {

/// What to charge in place of the defaults.
#[derive(Debug, Clone)]
pub struct CacheTariffOverrides {
    pub write_multiplier_5m: Option<Amount>,
    pub write_multiplier_1h: Option<Amount>,
    pub write_multiplier_24h: Option<Amount>,
    pub read_multiplier: Option<Amount>,
    pub min_prefix_tokens: Option<i32>,
}

impl Default for CacheTariffOverrides {
    fn default() -> (r: CacheTariffOverrides)
        ensures
            r == (CacheTariffOverrides {
                write_multiplier_5m: None,
                write_multiplier_1h: None,
                write_multiplier_24h: None,
                read_multiplier: None,
                min_prefix_tokens: None,
            }),
    {
        CacheTariffOverrides {
            write_multiplier_5m: None,
            write_multiplier_1h: None,
            write_multiplier_24h: None,
            read_multiplier: None,
            min_prefix_tokens: None,
        }
    }
}

/// A whole tariff for prompt caching.
#[derive(Debug)]
pub struct CacheTariffTerms {
    pub write_multiplier_5m: Amount,
    pub write_multiplier_1h: Amount,
    pub write_multiplier_24h: Amount,
    pub read_multiplier: Amount,
    pub min_prefix_tokens: i32,
}

/// A value, or a default where there is none.
pub open spec fn given_or<T>(given: Option<T>, default: T) -> T {
    match given {
        Some(value) => value,
        None => default,
    }
}

fn or_else_default<T>(given: Option<T>, default: T) -> (r: T)
    ensures
        r == given_or(given, default),
{
    match given {
        Some(value) => value,
        None => default,
    }
}

/// The tariff of a model on which caching is switched on: what is given, and the
/// defaults for the rest.
pub fn enabled_terms(defaults: &CacheTariffTerms, overrides: CacheTariffOverrides) -> (r:
    CacheTariffTerms)
    ensures
        r == (CacheTariffTerms {
            write_multiplier_5m: given_or(
                overrides.write_multiplier_5m,
                defaults.write_multiplier_5m,
            ),
            write_multiplier_1h: given_or(
                overrides.write_multiplier_1h,
                defaults.write_multiplier_1h,
            ),
            write_multiplier_24h: given_or(
                overrides.write_multiplier_24h,
                defaults.write_multiplier_24h,
            ),
            read_multiplier: given_or(overrides.read_multiplier, defaults.read_multiplier),
            min_prefix_tokens: given_or(overrides.min_prefix_tokens, defaults.min_prefix_tokens),
        }),
{
    CacheTariffTerms {
        write_multiplier_5m: or_else_default(
            overrides.write_multiplier_5m,
            defaults.write_multiplier_5m,
        ),
        write_multiplier_1h: or_else_default(
            overrides.write_multiplier_1h,
            defaults.write_multiplier_1h,
        ),
        write_multiplier_24h: or_else_default(
            overrides.write_multiplier_24h,
            defaults.write_multiplier_24h,
        ),
        read_multiplier: or_else_default(overrides.read_multiplier, defaults.read_multiplier),
        min_prefix_tokens: or_else_default(overrides.min_prefix_tokens, defaults.min_prefix_tokens),
    }
}

/// What is given takes the place of a default, and only what is given.
pub proof fn law_overrides_take_the_place_of_defaults<T>(value: T, default: T)
    ensures
        given_or(Some(value), default) == value,
        given_or(None, default) == default,
{
}

/// Each term of a tariff is the one that is given for it, or its own default where
/// none is given.
pub proof fn law_each_term_is_given_or_default(
    defaults: CacheTariffTerms,
    overrides: CacheTariffOverrides,
    r: CacheTariffTerms,
)
    requires
        call_ensures(enabled_terms, (&defaults, overrides), r),
    ensures
        overrides.write_multiplier_5m is Some ==> r.write_multiplier_5m
            == overrides.write_multiplier_5m->0,
        overrides.write_multiplier_5m is None ==> r.write_multiplier_5m
            == defaults.write_multiplier_5m,
        overrides.write_multiplier_1h is Some ==> r.write_multiplier_1h
            == overrides.write_multiplier_1h->0,
        overrides.write_multiplier_1h is None ==> r.write_multiplier_1h
            == defaults.write_multiplier_1h,
        overrides.write_multiplier_24h is Some ==> r.write_multiplier_24h
            == overrides.write_multiplier_24h->0,
        overrides.write_multiplier_24h is None ==> r.write_multiplier_24h
            == defaults.write_multiplier_24h,
        overrides.read_multiplier is Some ==> r.read_multiplier == overrides.read_multiplier->0,
        overrides.read_multiplier is None ==> r.read_multiplier == defaults.read_multiplier,
        overrides.min_prefix_tokens is Some ==> r.min_prefix_tokens
            == overrides.min_prefix_tokens->0,
        overrides.min_prefix_tokens is None ==> r.min_prefix_tokens == defaults.min_prefix_tokens,
{
}

}
