//! The Central Bank of Armenia, second endpoint: the date field that may be
//! nil.
use vstd::prelude::*;

verus! {

/// The next date with rates; the attribute says whether there is none.
#[derive(Debug)]
pub struct NextAvailableDate {
    pub xsi_nil: String,
}

} // verus!
