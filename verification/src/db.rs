//! Opening the database connection the service starts with.
//!
//! The connection itself is opened by the caller's `connect`; what is
//! decided here is which address it is handed and what is reported when
//! there is no address or no connection. There is one attempt and no retry.

use vstd::prelude::*;
use crate::env::Dotenv;
use crate::fatal::Fatal;

verus! {

/// The address of the database: what `DATABASE_URL` is set to.
pub fn database_url(env: &Dotenv) -> (found: Result<String, Fatal>)
    ensures
        match found {
            Ok(url) => env@.contains_key("DATABASE_URL"@) && url@ == env@["DATABASE_URL"@],
            Err(fatal) => !env@.contains_key("DATABASE_URL"@) && fatal == Fatal::MissingDatabaseUrl,
        },
{
    match env.get("DATABASE_URL") {
        Ok(url) => Ok(url),
        Err(_) => Err(Fatal::MissingDatabaseUrl),
    }
}

/// `connect`, handed `address`, may answer with `attempt`.
pub open spec fn answers<C, E, F: FnOnce(String) -> Result<C, E>>(
    connect: F,
    address: Seq<char>,
    attempt: Result<C, E>,
) -> bool {
    exists|url: String| url@ == address && #[trigger] call_ensures(connect, (url,), attempt)
}

/// Hands the address of the database to `connect`, once, and returns the
/// connection it opened. Without an address `connect` is not called.
pub fn establish_connection<C, E, F>(env: &Dotenv, connect: F) -> (outcome: Result<C, Fatal>)
    where F: FnOnce(String) -> Result<C, E>
    requires
        forall|url: String|
            env@.contains_key("DATABASE_URL"@) && url@ == env@["DATABASE_URL"@] ==> call_requires(
                connect,
                (url,),
            ),
    ensures
        !env@.contains_key("DATABASE_URL"@) ==> outcome == Err::<C, Fatal>(Fatal::MissingDatabaseUrl),
        env@.contains_key("DATABASE_URL"@) ==> match outcome {
            Ok(connection) => answers(connect, env@["DATABASE_URL"@], Ok::<C, E>(connection)),
            Err(Fatal::ConnectionFailed { url }) => {
                &&& url@ == env@["DATABASE_URL"@]
                &&& exists|error: E|
                    #[trigger] answers(connect, env@["DATABASE_URL"@], Err::<C, E>(error))
            },
            Err(_) => false,
        },
{
    let url = match database_url(env) {
        Ok(url) => url,
        Err(fatal) => {
            return Err(fatal);
        },
    };
    let reported = url.clone();
    let ghost asked = url;
    match connect(url) {
        Ok(connection) => {
            assert(call_ensures(connect, (asked,), Ok::<C, E>(connection)));
            Ok(connection)
        },
        Err(error) => {
            assert(call_ensures(connect, (asked,), Err::<C, E>(error)));
            assert(answers(connect, env@["DATABASE_URL"@], Err::<C, E>(error)));
            Err(Fatal::ConnectionFailed { url: reported })
        },
    }
}

} // verus!
