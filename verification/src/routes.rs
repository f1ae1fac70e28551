//! The router the service starts with.

use vstd::prelude::*;

verus! {

/// `axum::Router`. Opaque here but for the paths it routes.
#[verifier::external_type_specification]
#[verifier::external_body]
#[verifier::reject_recursive_types(S)]
pub struct ExRouter<S>(axum::Router<S>);

/// The paths under which `router` has a route registered: those of the
/// table that `axum::Router::route` fills and `axum::Router::has_routes`
/// reads. The table of fallbacks, which axum keeps beside it, is not meant.
pub uninterp spec fn routed_paths(router: axum::Router) -> Set<Seq<char>>;

/// `axum::Router::new`. Not proved: that the router it creates has no route
/// registered under any path, which is how axum's source builds it (an empty
/// table of routes; what it puts into the table of fallbacks is the
/// not-found answer).
#[verifier::external_body]
fn new_router() -> (router: axum::Router)
    ensures
        routed_paths(router) == Set::<Seq<char>>::empty(),
{
    axum::Router::new()
}

/// The routes of the service: none so far, so every path is unrouted.
pub fn app_routes() -> (router: axum::Router)
    ensures
        routed_paths(router) == Set::<Seq<char>>::empty(),
{
    new_router()
}

} // verus!
