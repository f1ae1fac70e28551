//! Start-up logic of a small web service: an environment snapshot with
//! fallbacks, the listen address derived from it, the database connection
//! step and the router the service starts with.

pub mod db;
pub mod decimal;
pub mod env;
pub mod fatal;
pub mod helpers;
pub mod routes;
