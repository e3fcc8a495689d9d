use nom::error::ErrorKind;
use vstd::prelude::*;

verus! {

/// Why a text is not a query.
#[derive(Debug)]
pub enum Error {
    /// The text does not follow the grammar; the code tells what was looked for in vain
    /// at the place where reading stopped.
    Failed(ErrorKind),
}

} // verus!
