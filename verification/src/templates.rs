//! The data handed to the HTML page: the quote to show and the stylesheet
//! the page links.

use vstd::prelude::*;
use crate::quote::Quote;

verus! {

/// Everything the main page needs in order to render.
#[derive(Debug)]
pub struct IndexTemplate {
    pub quote: Quote,
    pub stylesheet: &'static str,
}

impl IndexTemplate {
    /// Wraps a quote for the page, with the fixed stylesheet path.
    pub fn new(quote: Quote) -> (t: Self)
        ensures
            t.quote == quote,
            t.stylesheet@ == "/style.css"@,
    {
        Self { quote, stylesheet: "/style.css" }
    }
}

} // verus!
