//! The conditions on which start-up gives up.

use vstd::prelude::*;
use crate::env::not_found_message;

verus! {

/// A condition that ends start-up. None of them is retried.
#[derive(Debug, PartialEq, Eq)]
pub enum Fatal {
    /// `PORT` is set to something that is no port number.
    InvalidPort,
    /// `DATABASE_URL` is not set.
    MissingDatabaseUrl,
    /// The connection to the database at `url` could not be opened.
    ConnectionFailed { url: String },
}

impl Fatal {
    /// The one line that is reported for the condition.
    pub open spec fn diagnostic(self) -> Seq<char> {
        match self {
            Fatal::InvalidPort => "Invalid PORT value in environment variables"@,
            Fatal::MissingDatabaseUrl => "DATABASE_URL not found: \""@ + not_found_message(
                "DATABASE_URL"@,
            ) + "\""@,
            Fatal::ConnectionFailed { url } => "Error connecting to "@ + url@,
        }
    }

    /// The text of `diagnostic`.
    pub fn message(&self) -> (text: String)
        ensures
            text@ == self.diagnostic(),
    {
        match self {
            Fatal::InvalidPort => "Invalid PORT value in environment variables".to_owned(),
            Fatal::MissingDatabaseUrl => {
                let mut text = "DATABASE_URL not found: \"".to_owned();
                text.append("Environment variable `");
                text.append("DATABASE_URL");
                text.append("` not found");
                text.append("\"");
                assert(text@ =~= self.diagnostic());
                text
            },
            Fatal::ConnectionFailed { url } => {
                let mut text = "Error connecting to ".to_owned();
                text.append(url.as_str());
                text
            },
        }
    }
}

} // verus!
