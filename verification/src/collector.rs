//! What the collector keeps of the rates a source returned.
use crate::source::{filter_rates, spec_rate_kept, Rate};
use vstd::prelude::*;

verus! {

/// The rates of a source that are kept, in their order; nothing where none
/// is kept, in which case the source's earlier rates stay as they were.
pub open spec fn spec_accepted(rates: Seq<Rate>) -> Option<Seq<Rate>> {
    let kept = rates.filter(|x: Rate| spec_rate_kept(x));
    if kept.len() == 0 {
        None
    } else {
        Some(kept)
    }
}

/// The rates of a source that are kept; `None` where none is.
pub fn accepted_rates(rates: &Vec<Rate>) -> (r: Option<Vec<Rate>>)
    ensures
        r is None <==> spec_accepted(rates@) is None,
        r matches Some(v) ==> spec_accepted(rates@) == Some(v@),
{
    let kept = filter_rates(rates);
    if kept.len() == 0 {
        None
    } else {
        Some(kept)
    }
}

} // verus!
