//! Report reasons (NIP-56).
use vstd::prelude::*;
use crate::nostrbech32::str_eq_chars;
use vstd::string::StringExecFns;

verus! {

/// A report of unusable text.
#[derive(Debug, Clone, Copy, PartialEq, Eq, Structural)]
pub enum NReportError {
    /// Text that names no report reason.
    UnknownReportType,
}

/// The reason an event or key is reported.
#[derive(Debug, Clone, Copy, PartialEq, Eq, Structural, Hash)]
pub enum Report {
    /// Depictions of nudity, porn and the like.
    Nudity,
    /// Profanity or hateful speech.
    Profanity,
    /// Something illegal in some jurisdiction.
    Illegal,
    /// Spam.
    Spam,
    /// Someone pretending to be someone else.
    Impersonation,
    /// Anything that fits no other reason.
    Other,
}

/// The text of each report reason.
pub open spec fn report_chars(r: Report) -> Seq<char> {
    match r {
        Report::Nudity => "nudity"@,
        Report::Profanity => "profanity"@,
        Report::Illegal => "illegal"@,
        Report::Spam => "spam"@,
        Report::Impersonation => "impersonation"@,
        Report::Other => "other"@,
    }
}

/// The reason a text names, if any.
pub open spec fn report_of_chars(s: Seq<char>) -> Option<Report> {
    if s == "nudity"@ {
        Some(Report::Nudity)
    } else if s == "profanity"@ {
        Some(Report::Profanity)
    } else if s == "illegal"@ {
        Some(Report::Illegal)
    } else if s == "spam"@ {
        Some(Report::Spam)
    } else if s == "impersonation"@ {
        Some(Report::Impersonation)
    } else if s == "other"@ {
        Some(Report::Other)
    } else {
        None
    }
}

impl Report {
    /// The reason's text.
    pub fn to_report_string(&self) -> (r: String)
        ensures
            r@ == report_chars(*self),
    {
        match self {
            Report::Nudity => String::from_str("nudity"),
            Report::Profanity => String::from_str("profanity"),
            Report::Illegal => String::from_str("illegal"),
            Report::Spam => String::from_str("spam"),
            Report::Impersonation => String::from_str("impersonation"),
            Report::Other => String::from_str("other"),
        }
    }

    /// Parse a reason from its text; reject any other text.
    pub fn parse_str(s: &str) -> (r: Result<Report, NReportError>)
        ensures
            match r {
                Ok(rep) => report_of_chars(s@) == Some(rep),
                Err(e) => report_of_chars(s@) is None && e == NReportError::UnknownReportType,
            },
    {
        if str_eq_chars(s, "nudity") {
            Ok(Report::Nudity)
        } else if str_eq_chars(s, "profanity") {
            Ok(Report::Profanity)
        } else if str_eq_chars(s, "illegal") {
            Ok(Report::Illegal)
        } else if str_eq_chars(s, "spam") {
            Ok(Report::Spam)
        } else if str_eq_chars(s, "impersonation") {
            Ok(Report::Impersonation)
        } else if str_eq_chars(s, "other") {
            Ok(Report::Other)
        } else {
            Err(NReportError::UnknownReportType)
        }
    }
}

} // verus!
