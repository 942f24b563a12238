//! What one answer of the registry means for the search.

use vstd::prelude::*;
use crate::text::{contains_phrase, has_phrase, to_upper, uppercase_of};

verus! {

/// The status with which the registry answers a request that it served.
pub const STATUS_OK: u16 = 200;

/// First phrase of the page that the registry sends where it holds no record.
pub const NO_RECORD_PHRASE: &'static str = "NO RECORD FOUND";

/// Second phrase of that page.
pub const CONTACT_PHRASE: &'static str = "PLEASE CONTACT EXCISE";

/// What came of one request.
#[derive(Clone, Debug)]
pub enum QueryOutcome {
    /// The registry answered.
    Response { status: u16, body: String },
    /// No answer was received: the connection failed or timed out.
    Failed { error: String },
}

/// What an outcome means.
#[derive(Clone, Copy, Debug, PartialEq, Eq, Structural)]
pub enum Classification {
    /// The registry holds no record for the day.
    NoMatch,
    /// The registry holds a record for the day.
    Match,
    /// The request itself failed.
    TransportError,
    /// The registry answered with a status other than 200.
    ProtocolError(u16),
}

/// Whether `upper` is the page that the registry sends where it holds no
/// record: both phrases stand in it.
pub open spec fn is_empty_page(upper: Seq<char>) -> bool {
    has_phrase(upper, NO_RECORD_PHRASE@) && has_phrase(upper, CONTACT_PHRASE@)
}

/// What an answer with the given status means, `upper` being its body in
/// upper case.
pub open spec fn verdict(status: u16, upper: Seq<char>) -> Classification {
    if status != STATUS_OK {
        Classification::ProtocolError(status)
    } else if is_empty_page(upper) {
        Classification::NoMatch
    } else {
        Classification::Match
    }
}

/// What `outcome` means.
pub open spec fn classification_of(outcome: QueryOutcome) -> Classification {
    match outcome {
        QueryOutcome::Response { status, body } => verdict(status, uppercase_of(body@)),
        QueryOutcome::Failed { .. } => Classification::TransportError,
    }
}

/// Classifies an answer by its status and its body in upper case.
pub fn classify_upper(status: u16, upper: &str) -> (c: Classification)
    ensures
        c == verdict(status, upper@),
{
    if status != STATUS_OK {
        Classification::ProtocolError(status)
    } else if contains_phrase(upper, NO_RECORD_PHRASE) && contains_phrase(upper, CONTACT_PHRASE) {
        Classification::NoMatch
    } else {
        Classification::Match
    }
}

/// Classifies an answer by its status and its body, whatever the case of
/// its letters.
pub fn classify_response(status: u16, body: &str) -> (c: Classification)
    ensures
        c == verdict(status, uppercase_of(body@)),
{
    let upper = to_upper(body);
    classify_upper(status, upper.as_str())
}

/// Classifies the outcome of one request.
pub fn classify(outcome: &QueryOutcome) -> (c: Classification)
    ensures
        c == classification_of(*outcome),
{
    match outcome {
        QueryOutcome::Response { status, body } => classify_response(*status, body.as_str()),
        QueryOutcome::Failed { .. } => Classification::TransportError,
    }
}

/// A status other than 200 is a protocol error whatever the body holds; with
/// status 200 the body decides, and it is a match unless both phrases stand
/// in it.
pub proof fn lemma_verdict_cases(status: u16, upper: Seq<char>)
    ensures
        status != STATUS_OK ==> verdict(status, upper) == Classification::ProtocolError(status),
        status == STATUS_OK && has_phrase(upper, NO_RECORD_PHRASE@) && has_phrase(
            upper,
            CONTACT_PHRASE@,
        ) ==> verdict(status, upper) == Classification::NoMatch,
        status == STATUS_OK && !(has_phrase(upper, NO_RECORD_PHRASE@) && has_phrase(
            upper,
            CONTACT_PHRASE@,
        )) ==> verdict(status, upper) == Classification::Match,
        verdict(status, upper) != Classification::TransportError,
{
}

} // verus!
