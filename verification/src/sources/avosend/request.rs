//! The form a rouble transfer is priced with.
use vstd::prelude::*;

verus! {

#[derive(Debug)]
pub struct Body {
    pub country_code_from: String,
    pub country_id_from: u64,
    pub country_code_to: String,
    pub country_id_to: u64,
    pub currency_id_from: u64,
    pub currency_id_to: u64,
    pub summ_send: u64,
    pub direction: String,
}

} // verus!
