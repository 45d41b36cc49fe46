//! The closed error taxonomy and the two-way mapping both presentation
//! surfaces apply to it.

use vstd::prelude::*;

verus! {

/// The closed set of failure kinds computed in the store and the importer
/// and consumed identically by every presentation surface.
#[derive(Clone, Copy, Debug, PartialEq, Eq, Structural)]
pub enum ErrorKind {
    /// No matching row for the requested key, or no rows at all for random
    /// selection.
    NotFound,
    /// Connection, I/O, or query-execution failure not attributable to
    /// absence of data.
    StoreIoError,
    /// The import source could not be read or parsed before any
    /// record-level work began.
    SourceReadError,
    /// Schema, migration, or connection setup failed at startup; always
    /// fatal.
    StoreInitError,
}

/// The only distinction an end user ever sees: a missing resource, or an
/// internal failure with no detail attached.
#[derive(Clone, Copy, Debug, PartialEq, Eq, Structural)]
pub enum Outcome {
    /// "No such resource": the requested quote does not exist.
    NoSuchResource,
    /// "Something went wrong": any failure other than absence of data.
    InternalFailure,
}

/// The two-way split both surfaces must apply: `NotFound` becomes the
/// no-such-resource outcome, every other kind an internal failure.
pub fn outcome_of(e: ErrorKind) -> (o: Outcome)
    ensures
        o == (if e == ErrorKind::NotFound {
            Outcome::NoSuchResource
        } else {
            Outcome::InternalFailure
        }),
{
    match e {
        ErrorKind::NotFound => Outcome::NoSuchResource,
        _ => Outcome::InternalFailure,
    }
}

/// The HTTP status the JSON API answers with: 404 for a missing quote,
/// 500 for everything else.
pub fn api_status_of(e: ErrorKind) -> (status: u16)
    ensures
        status == (if e == ErrorKind::NotFound { 404u16 } else { 500u16 }),
{
    if outcome_of(e) == Outcome::NoSuchResource {
        404
    } else {
        500
    }
}

/// The friendly message the HTML page shows; internal error text never
/// reaches the end user.
pub fn page_error_message(e: ErrorKind) -> (msg: &'static str)
    ensures
        e == ErrorKind::NotFound ==> msg@ == "The quote you were looking for decided to take a day off. Try another!"@,
        e != ErrorKind::NotFound ==> msg@ == "We hit a snag trying to fetch a quote. Please try again."@,
{
    if outcome_of(e) == Outcome::NoSuchResource {
        "The quote you were looking for decided to take a day off. Try another!"
    } else {
        "We hit a snag trying to fetch a quote. Please try again."
    }
}

/// Whether a failure must end the process instead of becoming a typed
/// outcome: only setup failures are fatal.
pub fn is_fatal(e: ErrorKind) -> (fatal: bool)
    ensures
        fatal == (e == ErrorKind::StoreInitError),
{
    match e {
        ErrorKind::StoreInitError => true,
        _ => false,
    }
}

} // verus!
