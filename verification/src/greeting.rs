//! The two fixed greetings that the HTTP front end serves.

use vstd::prelude::*;

verus! {

/// The text served at the site root.
pub open spec fn index_text() -> Seq<char> {
    "Hello, world!"@
}

/// The text served at the API root.
pub open spec fn api_text() -> Seq<char> {
    "Hello, api!"@
}

/// Body of the response to a request for `/`.
pub fn index() -> (body: &'static str)
    ensures
        body@ == index_text(),
{
    "Hello, world!"
}

/// Body of the response to a request for `/api`.
pub fn api() -> (body: &'static str)
    ensures
        body@ == api_text(),
{
    "Hello, api!"
}

} // verus!
