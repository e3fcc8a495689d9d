use vstd::prelude::*;

use crate::parser::parser::Query;

pub mod backend;
pub mod parser;

verus! {

/// A backend that answers a query from a source of records.
pub trait FromQuery {
    type Source;

    type Output;

    type Error;

    fn select(query: Query, source: Self::Source) -> Result<Self::Output, Self::Error>;
}

} // verus!
