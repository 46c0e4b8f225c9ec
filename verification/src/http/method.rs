use crate::text::str_eq;
use vstd::prelude::*;

verus! {

/// The request methods the service recognizes; any other token on the
/// request line makes the whole parse fail.
#[derive(Clone, Copy, Debug, PartialEq, Eq, Structural)]
pub enum Method {
    GET,
    POST,
    PUT,
    DELETE,
}

/// The method named by a request-line token, if any.
pub open spec fn spec_method_of(t: Seq<char>) -> Option<Method> {
    if t == "GET"@ {
        Some(Method::GET)
    } else if t == "POST"@ {
        Some(Method::POST)
    } else if t == "PUT"@ {
        Some(Method::PUT)
    } else if t == "DELETE"@ {
        Some(Method::DELETE)
    } else {
        None
    }
}

impl Method {
    pub fn from_token(t: &str) -> (r: Option<Method>)
        ensures
            r == spec_method_of(t@),
    {
        if str_eq(t, "GET") {
            Some(Method::GET)
        } else if str_eq(t, "POST") {
            Some(Method::POST)
        } else if str_eq(t, "PUT") {
            Some(Method::PUT)
        } else if str_eq(t, "DELETE") {
            Some(Method::DELETE)
        } else {
            None
        }
    }
}

} // verus!
