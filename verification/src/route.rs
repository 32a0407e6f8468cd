//! The route and query parameters that the router hands over.
use vstd::prelude::*;
use leptos_router::params::ParamsMap;

verus! {

/// `leptos_router::params::ParamsMap`, the map of route or query parameters.
#[verifier::external_type_specification]
#[verifier::external_body]
pub struct ExParamsMap(leptos_router::params::ParamsMap);

/// What a `ParamsMap` holds: for each key that `ParamsMap::get` finds, the
/// value it gives back (the most recently added value of that key).
pub uninterp spec fn params_values(m: ParamsMap) -> Map<Seq<char>, Seq<char>>;

/// `ParamsMap::get`: the value of `key` in `m`, if the map holds one.
/// Trusted: its result is the entry of `params_values(*m)` at `key`, and it is
/// `None` exactly when that map has no such key.
#[verifier::external_body]
pub(crate) fn param_value(m: &ParamsMap, key: &str) -> (res: Option<String>)
    ensures
        res is Some <==> params_values(*m).dom().contains(key@),
        res matches Some(v) ==> v@ == params_values(*m)[key@],
{
    m.get(key)
}

/// The value of `key` in `m`, or the empty text when the map holds none.
pub open spec fn value_or_empty(m: ParamsMap, key: Seq<char>) -> Seq<char> {
    if params_values(m).dom().contains(key) {
        params_values(m)[key]
    } else {
        Seq::empty()
    }
}

/// The value of `key` in `m`, or an empty `String`.
pub fn value_or_default(m: &ParamsMap, key: &str) -> (res: String)
    ensures
        res@ == value_or_empty(*m, key@),
{
    match param_value(m, key) {
        Some(v) => v,
        None => String::new(),
    }
}

/// Whether `m` holds a value for `key`.
pub fn has_value(m: &ParamsMap, key: &str) -> (res: bool)
    ensures
        res == params_values(*m).dom().contains(key@),
{
    param_value(m, key).is_some()
}

} // verus!
