//! A verified core for a small Reddit bridge service: an HTTP request
//! planner/interpreter for the password-grant OAuth token endpoint and the
//! subreddit-name search endpoint, together with the data models and the
//! form/query encoding and JSON decoding they need.

pub mod client;
pub mod encoding;
pub mod http;
pub mod json;
pub mod models;

use vstd::prelude::*;

verus! {

/// The fixed user agent sent with every outbound request.
pub fn user_agent() -> (r: &'static str)
    ensures
        r@ == "reddit:mcp:v1 (by /u/boringly_boring)"@,
{
    "reddit:mcp:v1 (by /u/boringly_boring)"
}

} // verus!
