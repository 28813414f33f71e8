//! The Moscow exchange: the order book and instrument messages.
pub use crate::source::moex::{
    GetOrderBookRequest, GetOrderBookResponse, InstrumentIdType, InstrumentRequest, MoneyValue, Order, Quotation,
    ENV_TINKOFF_TOKEN,
};
