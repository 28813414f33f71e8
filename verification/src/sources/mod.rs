//! The sources of an earlier layout of the collector, in which the central
//! bank is `CbAm`: what of them is more than input and output.
use crate::text::to_owned;
use vstd::prelude::*;

pub use crate::source::{Currency, Rate, RateType};

pub mod artsakh;
pub mod avosend;
pub mod cb_am;
pub mod cba;
pub mod lsoft;
pub mod moex;
pub mod moneytun;
pub mod vtb_am;

verus! {

/// Rates read from a page rather than from an API.
#[derive(Debug)]
pub struct Response {
    pub rates: Vec<Rate>,
}

/// A configuration that names where the rates are read.
pub trait RatesConfigTrait {
    fn rates_url(&self) -> String;
}

/// The configuration shared by most sources.
#[derive(Debug)]
pub struct RatesConfig {
    pub rates_url: String,
    pub enabled: bool,
}

impl Clone for RatesConfig {
    fn clone(&self) -> (r: Self)
        ensures
            r == *self,
    {
        RatesConfig { rates_url: self.rates_url.clone(), enabled: self.enabled }
    }
}

impl RatesConfigTrait for RatesConfig {
    fn rates_url(&self) -> (r: String)
        ensures
            r@ == self.rates_url@,
    {
        self.rates_url.clone()
    }
}

/// A source of exchange rates.
#[derive(Clone, Copy, Debug, PartialEq, Eq, Structural, Hash, PartialOrd, Ord)]
pub enum Source {
    CbAm,
    MoEx,
    Acba,
    Ameria,
    Ardshin,
    ArmSwiss,
    Evoca,
    Fast,
    Ineco,
    Mellat,
    Converse,
    AEB,
    VtbAm,
    Artsakh,
    Unibank,
    Unistream,
    Amio,
    Byblos,
    IdBank,
    Ararat,
    IdPay,
    Mir,
    SAS,
    HSBC,
    Avosend,
    AlfaBy,
}

/// Whether a source is a bank: all but the central bank, the exchange, the
/// card system and the transfer services.
pub open spec fn spec_is_bank(s: Source) -> bool {
    !(s == Source::CbAm || s == Source::MoEx || s == Source::IdPay || s == Source::Mir || s == Source::SAS || s
        == Source::Avosend || s == Source::Unistream)
}

impl Source {
    /// The mark a source's rows start with: `@` for the central bank and
    /// Alfa-Bank Belarus, `*` for another bank, `#` for any other source.
    pub open spec fn spec_prefix(self) -> Seq<char> {
        if self == Source::CbAm || self == Source::AlfaBy {
            "@"@
        } else if spec_is_bank(self) {
            "*"@
        } else {
            "#"@
        }
    }

    pub fn prefix(&self) -> (r: &'static str)
        ensures
            r@ == self.spec_prefix(),
    {
        if *self == Self::CbAm || *self == Self::AlfaBy {
            "@"
        } else if self.is_bank() {
            "*"
        } else {
            "#"
        }
    }

    pub fn is_bank(&self) -> (r: bool)
        ensures
            r == spec_is_bank(*self),
    {
        !(*self == Self::CbAm || *self == Self::MoEx || *self == Self::IdPay || *self == Self::Mir || *self
            == Self::SAS || *self == Self::Avosend || *self == Self::Unistream)
    }
}

/// Errors of reading the rates of a source.
#[derive(Clone, Copy, Debug, PartialEq, Eq, Structural)]
pub enum Error {
    InvalidRateType,
    Html,
}

impl Error {
    pub open spec fn spec_message(self) -> Seq<char> {
        match self {
            Error::InvalidRateType => "invalid rate type"@,
            Error::Html => "html parse error"@,
        }
    }

    /// The text the error is shown with.
    pub fn message(&self) -> (r: String)
        ensures
            r@ == self.spec_message(),
    {
        match self {
            Error::InvalidRateType => to_owned("invalid rate type"),
            Error::Html => to_owned("html parse error"),
        }
    }
}

} // verus!
