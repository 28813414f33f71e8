//! The request the L-Soft platform is asked with.
use vstd::prelude::*;

verus! {

#[derive(Debug)]
pub struct Request {
    pub client: String,
    pub device: String,
    pub handler: String,
    pub lang: String,
    pub operation: String,
    pub accesstoken: String,
    pub id: String,
    pub get_currency_list_parameters: GetCurrencyListParameters,
    pub userid: String,
}

#[derive(Debug)]
pub struct GetCurrencyListParameters {
    pub currency: String,
}

impl Clone for GetCurrencyListParameters {
    fn clone(&self) -> (r: Self)
        ensures
            r == *self,
    {
        GetCurrencyListParameters { currency: self.currency.clone() }
    }
}

impl Default for GetCurrencyListParameters {
    fn default() -> (r: Self)
        ensures
            r.currency@ == Seq::<char>::empty(),
    {
        GetCurrencyListParameters { currency: String::new() }
    }
}

impl Clone for Request {
    fn clone(&self) -> (r: Self)
        ensures
            r == *self,
    {
        Request {
            client: self.client.clone(),
            device: self.device.clone(),
            handler: self.handler.clone(),
            lang: self.lang.clone(),
            operation: self.operation.clone(),
            accesstoken: self.accesstoken.clone(),
            id: self.id.clone(),
            get_currency_list_parameters: self.get_currency_list_parameters.clone(),
            userid: self.userid.clone(),
        }
    }
}

impl Default for Request {
    fn default() -> (r: Self)
        ensures
            r.client@ == Seq::<char>::empty(),
            r.device@ == Seq::<char>::empty(),
            r.handler@ == Seq::<char>::empty(),
            r.lang@ == Seq::<char>::empty(),
            r.operation@ == Seq::<char>::empty(),
            r.accesstoken@ == Seq::<char>::empty(),
            r.id@ == Seq::<char>::empty(),
            r.get_currency_list_parameters.currency@ == Seq::<char>::empty(),
            r.userid@ == Seq::<char>::empty(),
    {
        Request {
            client: String::new(),
            device: String::new(),
            handler: String::new(),
            lang: String::new(),
            operation: String::new(),
            accesstoken: String::new(),
            id: String::new(),
            get_currency_list_parameters: GetCurrencyListParameters::default(),
            userid: String::new(),
        }
    }
}

} // verus!
