//! The query root of the exposition schema. Only the greeting resolver has
//! any behaviour; the transport that serves it lives outside the library.

use vstd::prelude::*;

verus! {

/// The root query object.
pub struct Query {}

impl Query {
    /// The greeting resolver.
    pub fn hello(&self) -> (greeting: String)
        ensures
            greeting@ == "Hello, world!"@,
    {
        "Hello, world!".to_owned()
    }
}

} // verus!
