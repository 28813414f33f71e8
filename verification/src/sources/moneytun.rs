//! Moneytun: a payment method of its calculator.
use vstd::prelude::*;

verus! {

#[derive(Debug)]
pub struct PaymentMethod {
    pub id: u64,
    pub method: String,
    pub method_spanish: Option<String>,
    pub payment_method_img_url: String,
    pub selected: bool,
}

} // verus!
