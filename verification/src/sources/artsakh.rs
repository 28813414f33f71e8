//! Artsakhbank: the empty tariff fields of its currency list.
use vstd::prelude::*;

verus! {

/// A tariff field of the answer that carries nothing the rates need.
#[derive(Debug)]
pub struct Trf30 {}

/// A tariff field of the answer that carries nothing the rates need.
#[derive(Debug)]
pub struct Trf31 {}

} // verus!
