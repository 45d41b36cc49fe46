//! The two logical read operations the presentation adapters call, and
//! the parameter shape of the page request.

use vstd::prelude::*;
use crate::error::ErrorKind;
use crate::quote::{parse_id, parsed_id, Quote};
use crate::store::{has_id, index_of_id, quote_at, Store};

verus! {

/// The query parameters of the main page: an explicit id, or none to ask
/// for a random quote.
#[derive(Debug)]
pub struct GetQuoteParams {
    pub id: Option<String>,
}

/// Fetches the quote a textual id names. Text that does not parse as an
/// id names no quote and yields `NotFound`, never a distinct failure.
pub fn get_by_id(store: &Store, quote_id: &str) -> (r: Result<Quote, ErrorKind>)
    ensures
        match parsed_id(quote_id@) {
            Some(id) => match r {
                Ok(q) => has_id(store@, id) && q@ == quote_at(store@, id),
                Err(e) => e == ErrorKind::NotFound && !has_id(store@, id),
            },
            None => r == Err::<Quote, ErrorKind>(ErrorKind::NotFound),
        },
{
    match parse_id(quote_id) {
        Some(id) => store.fetch_by_id(id),
        None => Err(ErrorKind::NotFound),
    }
}

/// Fetches a random quote in two steps, a random id first and then the
/// lookup by that id, never as one joined query. An empty store yields
/// `NotFound` from the first step, and the second is not attempted.
pub fn get_random(store: &Store, pick: usize) -> (r: Result<Quote, ErrorKind>)
    ensures
        store@.len() == 0 ==> r == Err::<Quote, ErrorKind>(ErrorKind::NotFound),
        store@.len() > 0 ==> (r matches Ok(q) && q@ == store@[pick as int % store@.len() as int]),
{
    match store.fetch_random_id(pick) {
        Err(e) => Err(e),
        Ok(id) => {
            let r = store.fetch_by_id(id);
            proof {
                let k = pick as int % store@.len() as int;
                assert(store@[k].id == id as int);
                let i = index_of_id(store@, id as int);
                assert(0 <= i < store@.len() && store@[i].id == id as int);
                assert(i == k);
            }
            r
        },
    }
}

/// The main-page selection: by the given id when one was supplied in the
/// request, else a random quote.
pub fn select_quote(store: &Store, params: &GetQuoteParams, pick: usize) -> (r: Result<
    Quote,
    ErrorKind,
>)
    ensures
        match params.id {
            Some(text) => match parsed_id(text@) {
                Some(id) => match r {
                    Ok(q) => has_id(store@, id) && q@ == quote_at(store@, id),
                    Err(e) => e == ErrorKind::NotFound && !has_id(store@, id),
                },
                None => r == Err::<Quote, ErrorKind>(ErrorKind::NotFound),
            },
            None => ({
                &&& store@.len() == 0 ==> r == Err::<Quote, ErrorKind>(ErrorKind::NotFound)
                &&& store@.len() > 0 ==> (r matches Ok(q) && q@ == store@[pick as int
                    % store@.len() as int])
            }),
        },
{
    match &params.id {
        Some(text) => get_by_id(store, text.as_str()),
        None => get_random(store, pick),
    }
}

} // verus!
