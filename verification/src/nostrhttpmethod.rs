//! HTTP methods named in HTTP-auth tags (NIP-98).
use vstd::prelude::*;
use crate::nostrbech32::str_eq_chars;
use crate::tagerror::TagError;
use vstd::string::{StrSliceExecFns, StringExecFns};

verus! {

/// An HTTP method a request tag may name.
#[derive(Debug, Clone, Copy, PartialEq, Eq, Structural, Hash)]
pub enum NostrHttpMethod {
    /// GET.
    GET,
    /// POST.
    POST,
    /// PUT.
    PUT,
    /// PATCH.
    PATCH,
}

/// The text of each method.
pub open spec fn http_method_chars(m: NostrHttpMethod) -> Seq<char> {
    match m {
        NostrHttpMethod::GET => "GET"@,
        NostrHttpMethod::POST => "POST"@,
        NostrHttpMethod::PUT => "PUT"@,
        NostrHttpMethod::PATCH => "PATCH"@,
    }
}

/// The method a text names, if any.
pub open spec fn http_method_of_chars(s: Seq<char>) -> Option<NostrHttpMethod> {
    if s == "GET"@ {
        Some(NostrHttpMethod::GET)
    } else if s == "POST"@ {
        Some(NostrHttpMethod::POST)
    } else if s == "PUT"@ {
        Some(NostrHttpMethod::PUT)
    } else if s == "PATCH"@ {
        Some(NostrHttpMethod::PATCH)
    } else {
        None
    }
}

impl NostrHttpMethod {
    /// The method's text.
    pub fn to_method_string(&self) -> (r: String)
        ensures
            r@ == http_method_chars(*self),
    {
        match self {
            NostrHttpMethod::GET => String::from_str("GET"),
            NostrHttpMethod::POST => String::from_str("POST"),
            NostrHttpMethod::PUT => String::from_str("PUT"),
            NostrHttpMethod::PATCH => String::from_str("PATCH"),
        }
    }

    /// Parse a method from its text; reject any other text, carrying it.
    pub fn parse_str(s: &str) -> (r: Result<NostrHttpMethod, TagError>)
        ensures
            match r {
                Ok(m) => http_method_of_chars(s@) == Some(m),
                Err(e) => http_method_of_chars(s@) is None && (
                e matches TagError::InvalidTagField(t) && t@ == s@),
            },
    {
        if str_eq_chars(s, "GET") {
            Ok(NostrHttpMethod::GET)
        } else if str_eq_chars(s, "POST") {
            Ok(NostrHttpMethod::POST)
        } else if str_eq_chars(s, "PUT") {
            Ok(NostrHttpMethod::PUT)
        } else if str_eq_chars(s, "PATCH") {
            Ok(NostrHttpMethod::PATCH)
        } else {
            Err(TagError::InvalidTagField(String::from_str(s)))
        }
    }
}

} // verus!
