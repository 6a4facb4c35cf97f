//! Event-reference markers (NIP-10): how an `e` tag relates to its event.
use vstd::prelude::*;
use crate::nostrbech32::str_eq_chars;
use vstd::string::{StrSliceExecFns, StringExecFns};

verus! {

/// The position an `e` tag marks; unknown markers are kept as text.
#[derive(Debug, Clone, PartialEq, Eq, Hash)]
pub enum Marker {
    /// The root of the thread.
    Root,
    /// The event being replied to.
    Reply,
    /// A mentioned event.
    Mention,
    /// Any other marker text.
    Custom(String),
}

/// Whether a marker value reads the given text: the three known markers by
/// name, anything else kept verbatim.
pub open spec fn marker_of_chars(s: Seq<char>, m: Marker) -> bool {
    if s == "root"@ {
        m == Marker::Root
    } else if s == "reply"@ {
        m == Marker::Reply
    } else if s == "mention"@ {
        m == Marker::Mention
    } else {
        m matches Marker::Custom(t) && t@ == s
    }
}

impl Marker {
    /// Read a marker from its text; never fails.
    pub fn parse_str(s: &str) -> (r: Marker)
        ensures
            marker_of_chars(s@, r),
    {
        if str_eq_chars(s, "root") {
            Marker::Root
        } else if str_eq_chars(s, "reply") {
            Marker::Reply
        } else if str_eq_chars(s, "mention") {
            Marker::Mention
        } else {
            Marker::Custom(String::from_str(s))
        }
    }

    /// The marker's text.
    pub fn to_marker_string(&self) -> (r: String)
        ensures
            match self {
                Marker::Root => r@ == "root"@,
                Marker::Reply => r@ == "reply"@,
                Marker::Mention => r@ == "mention"@,
                Marker::Custom(t) => r@ == t@,
            },
    {
        match self {
            Marker::Root => String::from_str("root"),
            Marker::Reply => String::from_str("reply"),
            Marker::Mention => String::from_str("mention"),
            Marker::Custom(t) => t.clone(),
        }
    }
}

} // verus!
